use prop_runner::shrink::minimize;
use prop_runner::{TestCaseError, TestCaseResult, ValueTree};

struct Countdown {
    at: u32,
}

impl ValueTree for Countdown {
    type Value = u32;

    fn current(&self) -> u32 {
        self.at
    }

    fn simplify(&mut self) -> bool {
        if self.at == 0 {
            false
        } else {
            self.at -= 1;
            true
        }
    }

    fn complicate(&mut self) -> bool {
        false
    }
}

fn at_least_three(v: &u32) -> TestCaseResult {
    if *v >= 3 {
        Err(TestCaseError::Fail(format!("{} is too big", v)))
    } else {
        Ok(())
    }
}

#[test]
fn search_reports_the_last_failure_seen() {
    let (why, value) = minimize(Countdown { at: 7 }, &at_least_three, "7 is too big".to_owned());
    assert_eq!(3, value);
    assert_eq!("3 is too big", why);
}
