use scratchsmith::lint::{
    gate_check, gate_name, hardening_from_bytes, Gate, Hardening, Relro, DF_1_NOW, DF_1_PIE,
    DF_BIND_NOW, ET_DYN, PF_X, PT_GNU_RELRO, PT_GNU_STACK,
};

fn strong() -> Hardening {
    Hardening {
        pie: true,
        relro: Relro::Full,
        nx: true,
        canary: true,
        fortify: true,
    }
}

#[test]
fn each_gate_flags_its_own_weakness() {
    let weak = Hardening {
        pie: true,
        relro: Relro::Partial,
        nx: false,
        canary: false,
        fortify: false,
    };
    let gates = [Gate::NoNx, Gate::NoCanary, Gate::NoFortify, Gate::PartialRelro];
    assert_eq!(weak.violations(&gates), gates.to_vec());
    assert!(strong().violations(&gates).is_empty());
}

#[test]
fn display_renders_partial_relro_and_flags() {
    let partial = Hardening {
        pie: false,
        relro: Relro::Partial,
        nx: true,
        canary: false,
        fortify: true,
    };
    let out = partial.to_text();
    assert!(out.contains("RELRO:   partial"), "{out}");
    assert!(out.contains("PIE:     no"), "{out}");
    assert!(out.contains("NX:      yes"), "{out}");
    assert!(out.contains("Canary:  no"), "{out}");
    assert!(out.contains("Fortify: yes"), "{out}");
}

#[test]
fn gates_flag_only_real_weaknesses() {
    let weak = Hardening {
        pie: false,
        relro: Relro::Absent,
        nx: false,
        canary: false,
        fortify: false,
    };
    assert_eq!(weak.violations(&[Gate::NoRelro]), vec![Gate::NoRelro]);
    assert!(strong().violations(&[Gate::NoRelro, Gate::NoPie]).is_empty());
}

#[test]
fn partial_relro_gate_requires_full() {
    let partial = Hardening {
        relro: Relro::Partial,
        ..strong()
    };
    assert_eq!(partial.violations(&[Gate::PartialRelro]), vec![Gate::PartialRelro]);
    assert!(strong().violations(&[Gate::PartialRelro]).is_empty());
}

#[test]
fn gate_names_are_kebab_case() {
    assert_eq!(gate_name(Gate::NoRelro), "no-relro");
    assert_eq!(gate_name(Gate::PartialRelro), "partial-relro");
}

#[test]
fn the_text_report_is_exact() {
    assert_eq!(
        strong().to_text(),
        "  PIE:     yes\n  RELRO:   full\n  NX:      yes\n  Canary:  yes\n  Fortify: yes"
    );
}

#[test]
fn gate_check_reports_the_violations_in_request_order() {
    let weak = Hardening {
        pie: false,
        relro: Relro::Absent,
        nx: true,
        canary: true,
        fortify: true,
    };
    assert_eq!(
        gate_check(&weak, &[Gate::NoRelro, Gate::NoNx, Gate::NoPie]),
        Err(vec![Gate::NoRelro, Gate::NoPie])
    );
    assert_eq!(gate_check(&strong(), &[Gate::NoPie]), Ok(()));
}

#[test]
fn non_elf_bytes_have_no_hardening() {
    assert!(hardening_from_bytes(b"not an elf at all").is_none());
}

#[test]
fn the_elf_constants_match_goblin() {
    assert_eq!(ET_DYN, goblin::elf::header::ET_DYN);
    assert_eq!(DF_BIND_NOW, goblin::elf::dynamic::DF_BIND_NOW);
    assert_eq!(DF_1_NOW, goblin::elf::dynamic::DF_1_NOW);
    assert_eq!(DF_1_PIE, goblin::elf::dynamic::DF_1_PIE);
    assert_eq!(PT_GNU_STACK, goblin::elf::program_header::PT_GNU_STACK);
    assert_eq!(PT_GNU_RELRO, goblin::elf::program_header::PT_GNU_RELRO);
    assert_eq!(PF_X, goblin::elf::program_header::PF_X);
}

#[test]
fn the_gate_failure_names_each_violated_gate() {
    assert_eq!(
        scratchsmith::lint::gate_failure_message(&vec![Gate::NoPie, Gate::NoNx]),
        "hardening gate failed: no-pie, no-nx"
    );
}

#[test]
fn without_a_gate_lint_never_fails() {
    let weak = Hardening { pie: false, relro: Relro::Absent, nx: false, canary: false, fortify: false };
    assert_eq!(gate_check(&weak, &[]), Ok(()));
    assert_eq!(gate_check(&strong(), &[Gate::NoPie, Gate::NoNx]), Ok(()));
    assert_eq!(gate_check(&weak, &[Gate::NoCanary]), Err(vec![Gate::NoCanary]));
}
