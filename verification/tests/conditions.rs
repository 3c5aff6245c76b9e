use qt_ritual_build::condition::{evaluate, Condition, HostFact, HostFacts};

fn linux_host() -> HostFacts {
    HostFacts {
        os_family: Some("linux".to_string()),
        pointer_width: Some("64".to_string()),
        compiler: Some("gcc".to_string()),
        endianness: None,
    }
}

fn fact_is(key: HostFact, value: &str) -> Condition {
    Condition::FactEquals(key, value.to_string())
}

#[test]
fn always_true_holds_on_any_host() {
    let empty = HostFacts { os_family: None, pointer_width: None, compiler: None, endianness: None };
    assert!(evaluate(&Condition::AlwaysTrue, &linux_host()));
    assert!(evaluate(&Condition::AlwaysTrue, &empty));
}

#[test]
fn fact_comparison_checks_reported_value() {
    let facts = linux_host();
    assert!(evaluate(&fact_is(HostFact::OsFamily, "linux"), &facts));
    assert!(!evaluate(&fact_is(HostFact::OsFamily, "windows"), &facts));
    assert!(evaluate(&fact_is(HostFact::PointerWidth, "64"), &facts));
}

#[test]
fn unreported_fact_compares_false() {
    let facts = linux_host();
    assert!(!evaluate(&fact_is(HostFact::Endianness, "little"), &facts));
}

#[test]
fn not_negates() {
    let facts = linux_host();
    let c = fact_is(HostFact::OsFamily, "linux");
    let inner = evaluate(&c, &facts);
    assert_eq!(evaluate(&Condition::Not(Box::new(c)), &facts), !inner);
}

#[test]
fn and_or_combine() {
    let facts = linux_host();
    let yes = fact_is(HostFact::OsFamily, "linux");
    let no = fact_is(HostFact::OsFamily, "windows");
    assert!(!evaluate(&Condition::And(Box::new(yes), Box::new(no)), &facts));
    let yes = fact_is(HostFact::OsFamily, "linux");
    let no = fact_is(HostFact::OsFamily, "windows");
    assert!(evaluate(&Condition::Or(Box::new(yes), Box::new(no)), &facts));
}

#[test]
fn de_morgan_and_holds() {
    let facts = linux_host();
    let a = fact_is(HostFact::OsFamily, "linux");
    let b = fact_is(HostFact::Compiler, "msvc");
    let lhs = Condition::Not(Box::new(Condition::And(Box::new(a), Box::new(b))));
    let a = fact_is(HostFact::OsFamily, "linux");
    let b = fact_is(HostFact::Compiler, "msvc");
    let rhs = Condition::Or(
        Box::new(Condition::Not(Box::new(a))),
        Box::new(Condition::Not(Box::new(b))),
    );
    assert_eq!(evaluate(&lhs, &facts), evaluate(&rhs, &facts));
}

#[test]
fn de_morgan_or_holds() {
    let facts = linux_host();
    let a = fact_is(HostFact::OsFamily, "windows");
    let b = fact_is(HostFact::Compiler, "gcc");
    let lhs = Condition::Not(Box::new(Condition::Or(Box::new(a), Box::new(b))));
    let a = fact_is(HostFact::OsFamily, "windows");
    let b = fact_is(HostFact::Compiler, "gcc");
    let rhs = Condition::And(
        Box::new(Condition::Not(Box::new(a))),
        Box::new(Condition::Not(Box::new(b))),
    );
    assert_eq!(evaluate(&lhs, &facts), evaluate(&rhs, &facts));
}

#[test]
fn summary_renders_condition_tree() {
    assert_eq!(Condition::AlwaysTrue.summary(), "always");
    assert_eq!(
        fact_is(HostFact::OsFamily, "linux").summary(),
        "os_family = linux"
    );
    let c = Condition::Not(Box::new(Condition::And(
        Box::new(fact_is(HostFact::OsFamily, "linux")),
        Box::new(Condition::AlwaysTrue),
    )));
    assert_eq!(c.summary(), "not ((os_family = linux and always))");
    let c = Condition::Or(
        Box::new(fact_is(HostFact::PointerWidth, "32")),
        Box::new(fact_is(HostFact::Endianness, "big")),
    );
    assert_eq!(c.summary(), "(pointer_width = 32 or endianness = big)");
}
