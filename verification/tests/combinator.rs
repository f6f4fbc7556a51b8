use conlang::combinator::Combinator;

#[derive(Clone, Debug, PartialEq)]
struct Parse(Option<u32>);

impl Combinator for Parse {
    fn alright(&self) -> bool {
        self.0.is_some()
    }
    fn is_alright(&self) -> bool {
        self.0.is_some()
    }
    fn spec_into_alright(self) -> Self {
        self.into_alright()
    }
    fn into_alright(self) -> Self {
        Parse(Some(self.0.unwrap_or(0)))
    }
}

fn inc(p: Parse) -> Parse {
    Parse(p.0.map(|v| v + 1))
}

fn fail(_: Parse) -> Parse {
    Parse(None)
}

#[test]
fn and_runs_on_alright() {
    assert_eq!(Parse(Some(1)).and(inc), Parse(Some(2)));
    assert_eq!(Parse(None).and(inc), Parse(None));
}

#[test]
fn or_runs_on_failure() {
    assert_eq!(Parse(Some(1)).or(inc), Parse(Some(1)));
    assert_eq!(Parse(None).or(inc), Parse(Some(1)));
}

#[test]
fn and_either_falls_back() {
    assert_eq!(Parse(Some(1)).and_either(inc, |_| Parse(Some(7))), Parse(Some(2)));
    assert_eq!(Parse(Some(1)).and_either(fail, |_| Parse(Some(7))), Parse(Some(7)));
}

#[test]
fn and_maybe_keeps_self() {
    assert_eq!(Parse(Some(1)).and_maybe(inc), Parse(Some(2)));
    assert_eq!(Parse(Some(1)).and_maybe(fail), Parse(Some(1)));
    assert_eq!(Parse(None).and_maybe(inc), Parse(None));
}

fn dec(p: Parse) -> Parse {
    Parse(p.0.and_then(|v| v.checked_sub(1)))
}

#[test]
fn and_any_repeats_until_failure() {
    assert_eq!(Parse(Some(3)).and_any(dec), Parse(Some(0)));
    assert_eq!(Parse(None).and_any(dec), Parse(None));
    assert_eq!(Parse(Some(5)).and_any(fail), Parse(Some(0)));
}

#[test]
fn and_many_runs_at_least_once() {
    assert_eq!(Parse(Some(3)).and_many(dec), Parse(Some(0)));
    assert_eq!(Parse(Some(1)).and_many(fail), Parse(None));
    assert_eq!(Parse(None).and_many(dec), Parse(None));
}
