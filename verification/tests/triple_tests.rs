use mix::triple::{Arch, Env, Sys, Triple, TripleParseError};

#[test]
fn triple_names_of_all_targets() {
    let all = [
        (Arch::armv7l, Env::Gnu, "armv7l-linux-gnu"),
        (Arch::aarch64, Env::Gnu, "aarch64-linux-gnu"),
        (Arch::i686, Env::Gnu, "i686-linux-gnu"),
        (Arch::x86_64, Env::Gnu, "x86_64-linux-gnu"),
        (Arch::armv7l, Env::Musl, "armv7l-linux-musl"),
        (Arch::aarch64, Env::Musl, "aarch64-linux-musl"),
        (Arch::i686, Env::Musl, "i686-linux-musl"),
        (Arch::x86_64, Env::Musl, "x86_64-linux-musl"),
    ];
    for (arch, env, name) in all.iter() {
        let t = Triple::new(*arch, Sys::Linux, *env);
        assert_eq!(t.as_str(), *name);
    }
}

#[test]
fn triple_parse_then_display_roundtrip() {
    for name in [
        "armv7l-linux-gnu",
        "aarch64-linux-gnu",
        "i686-linux-gnu",
        "x86_64-linux-gnu",
        "armv7l-linux-musl",
        "aarch64-linux-musl",
        "i686-linux-musl",
        "x86_64-linux-musl",
    ] {
        let t = Triple::from_str(name).unwrap();
        assert_eq!(t.as_str(), name);
    }
}

#[test]
fn triple_parse_refuses_other_text() {
    let e = Triple::from_str("  riscv64-linux-gnu ").unwrap_err();
    assert_eq!(e, TripleParseError::InvalidTriple(String::from("  riscv64-linux-gnu ")));
    assert_eq!(e.message(), "invalid target-triple `riscv64-linux-gnu`");
    assert!(Triple::from_str(" x86_64-linux-gnu").is_err());
    assert!(Triple::from_str("").is_err());
}

#[test]
fn triple_setters_replace_one_part() {
    let t = Triple::new(Arch::x86_64, Sys::Linux, Env::Gnu);
    assert_eq!(t.armv7l().as_str(), "armv7l-linux-gnu");
    assert_eq!(t.aarch64().musl().as_str(), "aarch64-linux-musl");
    assert_eq!(t.i686().as_tuple(), (Arch::i686, Sys::Linux, Env::Gnu));
    assert_eq!(t.musl().gnu().as_str(), "x86_64-linux-gnu");
    assert_eq!(t.arch(Arch::aarch64).env(Env::Musl).sys(Sys::Linux).linux().as_str(), "aarch64-linux-musl");
}

#[test]
fn triple_part_names() {
    assert_eq!(Arch::armv7l.as_str(), "armv7l");
    assert_eq!(Arch::aarch64.as_str(), "aarch64");
    assert_eq!(Arch::i686.as_str(), "i686");
    assert_eq!(Arch::x86_64.as_str(), "x86_64");
    assert_eq!(Sys::Linux.as_str(), "linux");
    assert_eq!(Env::Gnu.as_str(), "gnu");
    assert_eq!(Env::Musl.as_str(), "musl");
}
