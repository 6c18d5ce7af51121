//! ELF hardening checks (PIE/RELRO/NX/canary/fortify).
//!
//! Each property is derived from the exact ELF structure that encodes it, so the
//! report matches what checksec-style tools show.

use vstd::prelude::*;
use crate::elf::{goblin_elf, parse_elf, spec_facts, HardeningFacts, HardeningFactsView};
use crate::text::{ends_with, is_suffix, str_eq};

verus! {

/// A hardening weakness that can gate a build (`--fail-on`). Each variant fails when
/// the corresponding mitigation is missing (or, for `PartialRelro`, not full).
#[derive(Debug, Clone, Copy, PartialEq, Eq, Structural)]
pub enum Gate {
    NoPie,
    NoRelro,
    PartialRelro,
    NoNx,
    NoCanary,
    NoFortify,
}

/// RELRO protects the GOT: `Partial` marks the relocations read-only after load,
/// `Full` also resolves them eagerly (BIND_NOW) so the GOT itself is read-only.
#[derive(Debug, Clone, Copy, PartialEq, Eq, Structural)]
pub enum Relro {
    Full,
    Partial,
    Absent,
}

/// A binary's exploit-mitigation posture.
#[derive(Debug, Clone, Copy, PartialEq, Eq, Structural)]
pub struct Hardening {
    /// Position-independent executable (ASLR for the main image).
    pub pie: bool,
    pub relro: Relro,
    /// Non-executable stack.
    pub nx: bool,
    /// Stack-smashing protector present.
    pub canary: bool,
    /// `_FORTIFY_SOURCE` buffer-overflow checks present.
    pub fortify: bool,
}

/// `ET_DYN`.
pub const ET_DYN: u16 = 3;

/// `DF_BIND_NOW`.
pub const DF_BIND_NOW: u64 = 0x8;

/// `DF_1_NOW`.
pub const DF_1_NOW: u64 = 0x1;

/// `DF_1_PIE`.
pub const DF_1_PIE: u64 = 0x0800_0000;

/// `PT_GNU_STACK`.
pub const PT_GNU_STACK: u32 = 0x6474_e551;

/// `PT_GNU_RELRO`.
pub const PT_GNU_RELRO: u32 = 0x6474_e552;

/// `PF_X`.
pub const PF_X: u32 = 1;

/// DT_FLAGS, or 0 without a dynamic section.
pub open spec fn dt_flags(f: HardeningFactsView) -> u64 {
    match f.dyn_flags {
        Some(p) => p.0,
        None => 0,
    }
}

/// DT_FLAGS_1, or 0 without a dynamic section.
pub open spec fn dt_flags_1(f: HardeningFactsView) -> u64 {
    match f.dyn_flags {
        Some(p) => p.1,
        None => 0,
    }
}

/// Some program header has type `t`.
pub open spec fn has_segment(f: HardeningFactsView, t: u32) -> bool {
    exists|i: int| 0 <= i < f.segments.len() && f.segments[i].0 == t
}

/// The flags of the first program header of type `t`.
pub open spec fn first_segment_flags(segs: Seq<(u32, u32)>, t: u32) -> Option<u32>
    decreases segs.len(),
{
    if segs.len() == 0 {
        None
    } else if segs[0].0 == t {
        Some(segs[0].1)
    } else {
        first_segment_flags(segs.skip(1), t)
    }
}

/// A dynamic symbol is named `__stack_chk_fail` or `__stack_chk_guard`.
pub open spec fn has_canary_symbol(f: HardeningFactsView) -> bool {
    exists|i: int|
        0 <= i < f.dynsyms.len() && (f.dynsyms[i] == Some("__stack_chk_fail"@) || f.dynsyms[i]
            == Some("__stack_chk_guard"@))
}

/// A dynamic symbol is a fortified libc wrapper (its name ends in `_chk`).
pub open spec fn has_fortify_symbol(f: HardeningFactsView) -> bool {
    exists|i: int| 0 <= i < f.dynsyms.len() && is_fortified(#[trigger] f.dynsyms[i])
}

/// A symbol name that ends in `_chk`.
pub open spec fn is_fortified(name: Option<Seq<char>>) -> bool {
    name matches Some(n) && is_suffix("_chk"@, n)
}

/// The hardening posture the ELF structure encodes.
pub open spec fn spec_analyze(f: HardeningFactsView) -> Hardening {
    let flags = dt_flags(f);
    let flags_1 = dt_flags_1(f);
    let has_relro = has_segment(f, PT_GNU_RELRO);
    let bind_now = flags & DF_BIND_NOW != 0 || flags_1 & DF_1_NOW != 0;
    Hardening {
        // An ET_DYN file declaring DF_1_PIE: ET_DYN alone is also a shared library.
        pie: f.e_type == ET_DYN && flags_1 & DF_1_PIE != 0,
        relro: if has_relro && bind_now {
            Relro::Full
        } else if has_relro {
            Relro::Partial
        } else {
            Relro::Absent
        },
        // No PT_GNU_STACK means the old executable-stack default, i.e. NX off.
        nx: match first_segment_flags(f.segments, PT_GNU_STACK) {
            Some(flags) => flags & PF_X == 0,
            None => false,
        },
        canary: has_canary_symbol(f),
        fortify: has_fortify_symbol(f),
    }
}

/// RELRO from the ELF structure: full exactly when a `PT_GNU_RELRO` (0x6474e552)
/// segment exists and the dynamic section asks for eager binding — DT_FLAGS holds
/// `DF_BIND_NOW` (0x8) or DT_FLAGS_1 holds `DF_1_NOW` (0x1); partial when the
/// segment exists without eager binding; absent without the segment. Being a PIE
/// (`DF_1_PIE`, 0x08000000) has no part in it: a PIE built without `-z now` has
/// partial RELRO. And PIE itself is exactly an `ET_DYN` (3) file whose DT_FLAGS_1
/// holds `DF_1_PIE`.
pub proof fn law_relro_needs_the_segment_and_bind_now(f: HardeningFactsView)
    ensures
        spec_analyze(f).relro == Relro::Full <==> (exists|i: int|
            0 <= i < f.segments.len() && f.segments[i].0 == 0x6474_e552u32) && match f.dyn_flags {
            Some((fl, fl1)) => fl & 0x8 != 0 || fl1 & 0x1 != 0,
            None => false,
        },
        spec_analyze(f).relro == Relro::Partial <==> (exists|i: int|
            0 <= i < f.segments.len() && f.segments[i].0 == 0x6474_e552u32) && match f.dyn_flags {
            Some((fl, fl1)) => fl & 0x8 == 0 && fl1 & 0x1 == 0,
            None => true,
        },
        spec_analyze(f).relro == Relro::Absent <==> !(exists|i: int|
            0 <= i < f.segments.len() && f.segments[i].0 == 0x6474_e552u32),
        (exists|i: int| 0 <= i < f.segments.len() && f.segments[i].0 == 0x6474_e552u32) && f.dyn_flags
            == Some((0u64, 0x0800_0000u64)) ==> spec_analyze(f).relro == Relro::Partial,
        spec_analyze(f).pie <==> f.e_type == 3 && match f.dyn_flags {
            Some((_, fl1)) => fl1 & 0x0800_0000 != 0,
            None => false,
        },
{
    assert(0x0800_0000u64 & 0x1u64 == 0) by (bit_vector);
    assert(0u64 & 0x8u64 == 0) by (bit_vector);
    assert(0u64 & 0x1u64 == 0) by (bit_vector);
    assert(0u64 & 0x0800_0000u64 == 0) by (bit_vector);
}

proof fn lemma_first_segment(segs: Seq<(u32, u32)>, t: u32, i: int)
    requires
        0 <= i <= segs.len(),
        forall|j: int| 0 <= j < i ==> segs[j].0 != t,
    ensures
        i < segs.len() && segs[i].0 == t ==> first_segment_flags(segs, t) == Some(segs[i].1),
        i == segs.len() ==> first_segment_flags(segs, t) is None,
    decreases i,
{
    if i > 0 {
        assert forall|j: int| 0 <= j < i - 1 implies segs.skip(1)[j].0 != t by {}
        lemma_first_segment(segs.skip(1), t, i - 1);
    } else if segs.len() > 0 {
    }
}

/// NX, the canary and FORTIFY from the ELF structure: the stack is non-executable
/// exactly when there is a `PT_GNU_STACK` (0x6474e551) program header and the first
/// one lacks `PF_X` (0x1) — without one the old executable-stack default applies;
/// the canary is present exactly when a dynamic symbol is `__stack_chk_fail` or
/// `__stack_chk_guard`; FORTIFY exactly when a dynamic symbol name ends in `_chk`.
pub proof fn law_nx_canary_fortify(f: HardeningFactsView)
    ensures
        spec_analyze(f).nx <==> exists|i: int|
            0 <= i < f.segments.len() && f.segments[i].0 == 0x6474_e551u32 && f.segments[i].1 & 0x1 == 0
                && forall|j: int| 0 <= j < i ==> f.segments[j].0 != 0x6474_e551u32,
        spec_analyze(f).canary <==> exists|i: int|
            0 <= i < f.dynsyms.len() && (f.dynsyms[i] == Some("__stack_chk_fail"@) || f.dynsyms[i] == Some(
                "__stack_chk_guard"@,
            )),
        spec_analyze(f).fortify <==> exists|i: int|
            #![trigger f.dynsyms[i]]
            0 <= i < f.dynsyms.len() && (f.dynsyms[i] matches Some(n) && n.len() >= 4 && n.subrange(
                n.len() - 4,
                n.len() as int,
            ) == "_chk"@),
{
    let segs = f.segments;
    let t = 0x6474_e551u32;
    if exists|i: int| 0 <= i < segs.len() && segs[i].0 == t {
        let k = choose|i: int| 0 <= i < segs.len() && segs[i].0 == t;
        let m = first_index(segs, t, k);
        lemma_first_segment(segs, t, m);
        if spec_analyze(f).nx {
            assert(segs[m].1 & 0x1 == 0);
        }
        if exists|i: int|
            0 <= i < segs.len() && segs[i].0 == t && segs[i].1 & 0x1 == 0 && forall|j: int|
                0 <= j < i ==> segs[j].0 != t {
            let i = choose|i: int|
                0 <= i < segs.len() && segs[i].0 == t && segs[i].1 & 0x1 == 0 && forall|j: int|
                    0 <= j < i ==> segs[j].0 != t;
            assert(i == m) by {
                if i < m {
                    assert(segs[i].0 != t);
                } else if m < i {
                    assert(segs[m].0 != t);
                }
            }
        }
    } else {
        lemma_first_segment(segs, t, segs.len() as int);
    }
    reveal_strlit("_chk");
    assert forall|n: Seq<char>| is_suffix("_chk"@, n) <==> (n.len() >= 4 && n.subrange(n.len() - 4, n.len() as int)
        == "_chk"@) by {
        assert("_chk"@.len() == 4);
        if n.len() >= 4 {
            assert(n.skip(n.len() - 4) =~= n.subrange(n.len() - 4, n.len() as int));
        }
    }
    if has_fortify_symbol(f) {
        let i = choose|i: int| 0 <= i < f.dynsyms.len() && is_fortified(#[trigger] f.dynsyms[i]);
        assert(f.dynsyms[i] matches Some(n) && is_suffix("_chk"@, n));
    }
    if exists|i: int|
        #![trigger f.dynsyms[i]]
        0 <= i < f.dynsyms.len() && (f.dynsyms[i] matches Some(n) && n.len() >= 4 && n.subrange(
            n.len() - 4,
            n.len() as int,
        ) == "_chk"@) {
        let i = choose|i: int|
            #![trigger f.dynsyms[i]]
            0 <= i < f.dynsyms.len() && (f.dynsyms[i] matches Some(n) && n.len() >= 4 && n.subrange(
                n.len() - 4,
                n.len() as int,
            ) == "_chk"@);
        assert(is_fortified(f.dynsyms[i]));
    }
}

/// The index of the first program header of type `t`, given that header `k` has it.
proof fn first_index(segs: Seq<(u32, u32)>, t: u32, k: int) -> (m: int)
    requires
        0 <= k < segs.len(),
        segs[k].0 == t,
    ensures
        0 <= m <= k,
        segs[m].0 == t,
        forall|j: int| 0 <= j < m ==> segs[j].0 != t,
    decreases k,
{
    if exists|j: int| 0 <= j < k && segs[j].0 == t {
        let j = choose|j: int| 0 <= j < k && segs[j].0 == t;
        first_index(segs, t, j)
    } else {
        k
    }
}

/// Analyze the hardening facts of an ELF.
pub fn analyze(f: &HardeningFacts) -> (h: Hardening)
    ensures
        h == spec_analyze(f@),
{
    let (flags, flags_1) = match f.dyn_flags {
        Some(p) => p,
        None => (0u64, 0u64),
    };
    let mut has_relro = false;
    let mut nx: Option<bool> = None;
    let mut i: usize = 0;
    while i < f.segments.len()
        invariant
            i <= f.segments.len(),
            has_relro == exists|j: int| 0 <= j < i && f.segments@[j].0 == PT_GNU_RELRO,
            match nx {
                Some(b) => first_segment_flags(f@.segments, PT_GNU_STACK) matches Some(fl) && b
                    == (fl & PF_X == 0),
                None => forall|j: int| 0 <= j < i ==> f.segments@[j].0 != PT_GNU_STACK,
            },
        decreases f.segments.len() - i,
    {
        let (t, fl) = f.segments[i];
        if t == PT_GNU_RELRO {
            has_relro = true;
        }
        if nx.is_none() && t == PT_GNU_STACK {
            proof {
                lemma_first_segment(f@.segments, PT_GNU_STACK, i as int);
            }
            nx = Some(fl & PF_X == 0);
        }
        i += 1;
    }
    proof {
        if nx is None {
            lemma_first_segment(f@.segments, PT_GNU_STACK, f.segments.len() as int);
        }
    }
    let mut canary = false;
    let mut fortify = false;
    let mut k: usize = 0;
    while k < f.dynsyms.len()
        invariant
            k <= f.dynsyms.len(),
            canary == exists|j: int|
                0 <= j < k && (f@.dynsyms[j] == Some("__stack_chk_fail"@) || f@.dynsyms[j] == Some(
                    "__stack_chk_guard"@,
                )),
            fortify == exists|j: int| 0 <= j < k && is_fortified(#[trigger] f@.dynsyms[j]),
        decreases f.dynsyms.len() - k,
    {
        if let Some(name) = &f.dynsyms[k] {
            if str_eq(name.as_str(), "__stack_chk_fail") || str_eq(name.as_str(), "__stack_chk_guard") {
                canary = true;
            }
            if ends_with(name.as_str(), "_chk") {
                fortify = true;
            }
            proof {
                assert(f@.dynsyms[k as int] == Some(name@));
            }
        }
        k += 1;
    }
    let pie = f.e_type == ET_DYN && flags_1 & DF_1_PIE != 0;
    let bind_now = flags & DF_BIND_NOW != 0 || flags_1 & DF_1_NOW != 0;
    let relro = if has_relro && bind_now {
        Relro::Full
    } else if has_relro {
        Relro::Partial
    } else {
        Relro::Absent
    };
    let h = Hardening { pie, relro, nx: match nx {
        Some(b) => b,
        None => false,
    }, canary, fortify };
    proof {
        assert(has_relro == has_segment(f@, PT_GNU_RELRO));
    }
    h
}

/// Analyze hardening from in-memory ELF bytes; `None` exactly when the bytes are not
/// a parseable ELF.
pub fn hardening_from_bytes(bytes: &[u8]) -> (r: Option<Hardening>)
    ensures
        match r {
            Some(h) => goblin_elf(bytes@) matches Some(g) && h == spec_analyze(spec_facts(g).hardening),
            None => goblin_elf(bytes@) is None,
        },
{
    match parse_elf(bytes) {
        Ok(f) => Some(analyze(&f.hardening)),
        Err(_) => None,
    }
}

/// Does `h` violate `gate`?
pub open spec fn spec_violates(h: Hardening, gate: Gate) -> bool {
    match gate {
        Gate::NoPie => !h.pie,
        Gate::NoRelro => h.relro == Relro::Absent,
        Gate::PartialRelro => h.relro != Relro::Full,
        Gate::NoNx => !h.nx,
        Gate::NoCanary => !h.canary,
        Gate::NoFortify => !h.fortify,
    }
}

/// The gates of `gates` that `h` violates, in order.
pub open spec fn spec_violations(h: Hardening, gates: Seq<Gate>) -> Seq<Gate> {
    gates.filter(|g: Gate| spec_violates(h, g))
}

/// `lint` fails only on request: without a gate nothing is violated, every reported
/// violation is a requested gate the binary fails, and every requested gate it
/// fails is reported.
pub proof fn law_gates_fail_only_on_request(h: Hardening, gates: Seq<Gate>)
    ensures
        gates.len() == 0 ==> spec_violations(h, gates).len() == 0,
        forall|i: int|
            0 <= i < spec_violations(h, gates).len() ==> spec_violates(h, #[trigger] spec_violations(h, gates)[i]),
        forall|i: int|
            0 <= i < gates.len() && spec_violates(h, gates[i]) ==> #[trigger] spec_violations(h, gates).contains(gates[i]),
{
    let pred = |g: Gate| spec_violates(h, g);
    assert(spec_violations(h, gates) == gates.filter(pred));
    gates.lemma_filter_len(pred);
    assert forall|i: int| 0 <= i < gates.filter(pred).len() implies spec_violates(h, #[trigger] gates.filter(pred)[i]) by {
        gates.lemma_filter_pred(pred, i);
    }
    assert forall|i: int| 0 <= i < gates.len() && spec_violates(h, gates[i]) implies #[trigger] gates.filter(pred).contains(gates[i]) by {
        gates.lemma_filter_contains(pred, i);
    }
}

impl Hardening {
    /// Which of the requested gates this binary violates, in the order given.
    pub fn violations(&self, gates: &[Gate]) -> (r: Vec<Gate>)
        ensures
            r@ == spec_violations(*self, gates@),
    {
        let mut r: Vec<Gate> = Vec::new();
        let mut i: usize = 0;
        while i < gates.len()
            invariant
                i <= gates.len(),
                r@ == spec_violations(*self, gates@.take(i as int)),
            decreases gates.len() - i,
        {
            let g = gates[i];
            if self.violates(g) {
                r.push(g);
            }
            proof {
                reveal_with_fuel(Seq::filter, 1);
                assert(gates@.take(i + 1).drop_last() =~= gates@.take(i as int));
            }
            i += 1;
        }
        assert(gates@.take(gates.len() as int) =~= gates@);
        r
    }

    /// Does this binary violate `gate`?
    pub fn violates(&self, gate: Gate) -> (b: bool)
        ensures
            b == spec_violates(*self, gate),
    {
        match gate {
            Gate::NoPie => !self.pie,
            Gate::NoRelro => self.relro == Relro::Absent,
            Gate::PartialRelro => self.relro != Relro::Full,
            Gate::NoNx => !self.nx,
            Gate::NoCanary => !self.canary,
            Gate::NoFortify => !self.fortify,
        }
    }

    /// The hardening report, one property per line.
    pub fn to_text(&self) -> (s: String)
        ensures
            s@ == hardening_text(*self),
    {
        let mut s = String::new();
        s.append("  PIE:     ");
        s.append(yes_no(self.pie));
        s.append("\n  RELRO:   ");
        s.append(relro_name(self.relro));
        s.append("\n  NX:      ");
        s.append(yes_no(self.nx));
        s.append("\n  Canary:  ");
        s.append(yes_no(self.canary));
        s.append("\n  Fortify: ");
        s.append(yes_no(self.fortify));
        s
    }
}

/// `yes` or `no`.
pub open spec fn spec_yes_no(b: bool) -> Seq<char> {
    if b {
        "yes"@
    } else {
        "no"@
    }
}

/// The report word for a RELRO level.
pub open spec fn spec_relro_name(r: Relro) -> Seq<char> {
    match r {
        Relro::Full => "full"@,
        Relro::Partial => "partial"@,
        Relro::Absent => "none"@,
    }
}

/// The hardening report text.
pub open spec fn hardening_text(h: Hardening) -> Seq<char> {
    "  PIE:     "@ + spec_yes_no(h.pie) + "\n  RELRO:   "@ + spec_relro_name(h.relro) + "\n  NX:      "@
        + spec_yes_no(h.nx) + "\n  Canary:  "@ + spec_yes_no(h.canary) + "\n  Fortify: "@
        + spec_yes_no(h.fortify)
}

fn yes_no(b: bool) -> (s: &'static str)
    ensures
        s@ == spec_yes_no(b),
{
    if b {
        "yes"
    } else {
        "no"
    }
}

fn relro_name(r: Relro) -> (s: &'static str)
    ensures
        s@ == spec_relro_name(r),
{
    match r {
        Relro::Full => "full",
        Relro::Partial => "partial",
        Relro::Absent => "none",
    }
}

/// The kebab-case name of a gate, as the `--fail-on` flag spells it.
pub open spec fn spec_gate_name(g: Gate) -> Seq<char> {
    match g {
        Gate::NoPie => "no-pie"@,
        Gate::NoRelro => "no-relro"@,
        Gate::PartialRelro => "partial-relro"@,
        Gate::NoNx => "no-nx"@,
        Gate::NoCanary => "no-canary"@,
        Gate::NoFortify => "no-fortify"@,
    }
}

/// The kebab-case name of a gate.
pub fn gate_name(g: Gate) -> (s: &'static str)
    ensures
        s@ == spec_gate_name(g),
{
    match g {
        Gate::NoPie => "no-pie",
        Gate::NoRelro => "no-relro",
        Gate::PartialRelro => "partial-relro",
        Gate::NoNx => "no-nx",
        Gate::NoCanary => "no-canary",
        Gate::NoFortify => "no-fortify",
    }
}

/// The outcome of the `lint` gate: `Ok` when no requested gate is violated, else the
/// names of the violated gates, in the order requested.
pub fn gate_check(h: &Hardening, gates: &[Gate]) -> (r: Result<(), Vec<Gate>>)
    ensures
        match r {
            Ok(()) => spec_violations(*h, gates@).len() == 0,
            Err(v) => v@ == spec_violations(*h, gates@) && v@.len() > 0,
        },
{
    let v = h.violations(gates);
    if v.len() == 0 {
        Ok(())
    } else {
        Err(v)
    }
}

/// The names of the violated gates.
pub open spec fn gate_names(v: Seq<Gate>) -> Seq<Seq<char>> {
    Seq::new(v.len(), |i: int| spec_gate_name(v[i]))
}

/// The message of a failed gate: the offending checks by name.
pub fn gate_failure_message(violations: &Vec<Gate>) -> (s: String)
    ensures
        s@ == "hardening gate failed: "@ + crate::text::join(gate_names(violations@), ", "@),
{
    let mut names: Vec<String> = Vec::new();
    let mut i: usize = 0;
    while i < violations.len()
        invariant
            i <= violations.len(),
            names@.len() == i,
            forall|k: int| 0 <= k < i ==> #[trigger] names@[k]@ == spec_gate_name(violations@[k]),
        decreases violations.len() - i,
    {
        names.push(crate::text::copy_str(gate_name(violations[i])));
        i += 1;
    }
    assert(crate::text::views(names@) =~= gate_names(violations@));
    let mut s = crate::text::copy_str("hardening gate failed: ");
    s.append(crate::text::join_strings(&names, ", ").as_str());
    s
}

} // verus!
