//! The facts this tool reads out of an ELF file, as plain values, and the single
//! place where the ELF bytes are handed to goblin.

use vstd::prelude::*;
use crate::resolver::{ElfInfo, ElfInfoView, opt_view};
use crate::text::views;

verus! {

/// The ELF structure the hardening checks read: the file type, the DT_FLAGS and
/// DT_FLAGS_1 values of the dynamic section (when there is one), each program
/// header's type and flags, and the name of each dynamic symbol (when its string
/// table entry resolves).
#[derive(Debug, Clone, PartialEq, Eq)]
pub struct HardeningFacts {
    /// `e_type` of the ELF header.
    pub e_type: u16,
    /// `(DT_FLAGS, DT_FLAGS_1)`, or `None` without a dynamic section.
    pub dyn_flags: Option<(u64, u64)>,
    /// `(p_type, p_flags)` of each program header, in file order.
    pub segments: Vec<(u32, u32)>,
    /// The name of each dynamic symbol, in table order.
    pub dynsyms: Vec<Option<String>>,
}

/// The mathematical content of [`HardeningFacts`].
pub struct HardeningFactsView {
    pub e_type: u16,
    pub dyn_flags: Option<(u64, u64)>,
    pub segments: Seq<(u32, u32)>,
    pub dynsyms: Seq<Option<Seq<char>>>,
}

impl View for HardeningFacts {
    type V = HardeningFactsView;

    open spec fn view(&self) -> HardeningFactsView {
        HardeningFactsView {
            e_type: self.e_type,
            dyn_flags: self.dyn_flags,
            segments: self.segments@,
            dynsyms: Seq::new(self.dynsyms@.len(), |i: int| opt_view(self.dynsyms@[i])),
        }
    }
}

/// Everything read from one ELF file.
#[derive(Debug, Clone, PartialEq, Eq)]
pub struct ElfFacts {
    /// The dynamic-linking facts.
    pub link: ElfInfo,
    /// The hardening facts.
    pub hardening: HardeningFacts,
}

/// The mathematical content of [`ElfFacts`].
pub struct ElfFactsView {
    pub link: ElfInfoView,
    pub hardening: HardeningFactsView,
}

impl View for ElfFacts {
    type V = ElfFactsView;

    open spec fn view(&self) -> ElfFactsView {
        ElfFactsView { link: self.link@, hardening: self.hardening@ }
    }
}

/// The fields goblin's parsed `Elf` holds that this tool reads, as plain values:
/// `interpreter`, `libraries`, `rpaths`, `runpaths`, `soname`, `is_64`,
/// `header.e_machine`, `header.e_type`, the dynamic section's `info.flags` and
/// `info.flags_1`, each program header's `p_type` and `p_flags`, and each dynamic
/// symbol's name as `dynstrtab.get_at(st_name)` gives it.
#[derive(Debug, Clone, PartialEq, Eq)]
pub struct GoblinElf<'a> {
    pub interpreter: Option<&'a str>,
    pub libraries: Vec<&'a str>,
    pub rpaths: Vec<&'a str>,
    pub runpaths: Vec<&'a str>,
    pub soname: Option<&'a str>,
    pub is_64: bool,
    pub e_machine: u16,
    pub e_type: u16,
    pub dyn_flags: Option<(u64, u64)>,
    pub segments: Vec<(u32, u32)>,
    pub dynsyms: Vec<Option<&'a str>>,
}

/// The mathematical content of [`GoblinElf`].
pub struct GoblinElfView {
    pub interpreter: Option<Seq<char>>,
    pub libraries: Seq<Seq<char>>,
    pub rpaths: Seq<Seq<char>>,
    pub runpaths: Seq<Seq<char>>,
    pub soname: Option<Seq<char>>,
    pub is_64: bool,
    pub e_machine: u16,
    pub e_type: u16,
    pub dyn_flags: Option<(u64, u64)>,
    pub segments: Seq<(u32, u32)>,
    pub dynsyms: Seq<Option<Seq<char>>>,
}

/// The view of an optional borrowed string.
pub open spec fn str_opt(o: Option<&str>) -> Option<Seq<char>> {
    match o {
        Some(s) => Some(s@),
        None => None,
    }
}

/// The views of a list of borrowed strings.
pub open spec fn str_views(v: Seq<&str>) -> Seq<Seq<char>> {
    Seq::new(v.len(), |i: int| v[i]@)
}

impl<'a> View for GoblinElf<'a> {
    type V = GoblinElfView;

    open spec fn view(&self) -> GoblinElfView {
        GoblinElfView {
            interpreter: str_opt(self.interpreter),
            libraries: str_views(self.libraries@),
            rpaths: str_views(self.rpaths@),
            runpaths: str_views(self.runpaths@),
            soname: str_opt(self.soname),
            is_64: self.is_64,
            e_machine: self.e_machine,
            e_type: self.e_type,
            dyn_flags: self.dyn_flags,
            segments: self.segments@,
            dynsyms: Seq::new(self.dynsyms@.len(), |i: int| str_opt(self.dynsyms@[i])),
        }
    }
}

/// Owned copies of borrowed strings.
fn owned_strs(v: &Vec<&str>) -> (r: Vec<String>)
    ensures
        views(r@) == str_views(v@),
{
    let mut r: Vec<String> = Vec::new();
    let mut i: usize = 0;
    while i < v.len()
        invariant
            i <= v.len(),
            r@.len() == i,
            forall|k: int| 0 <= k < i ==> #[trigger] r@[k]@ == v@[k]@,
        decreases v.len() - i,
    {
        r.push(crate::text::copy_str(v[i]));
        i += 1;
    }
    assert(views(r@) =~= str_views(v@));
    r
}

/// An owned copy of an optional borrowed string.
fn owned_opt(o: Option<&str>) -> (r: Option<String>)
    ensures
        opt_view(r) == str_opt(o),
{
    match o {
        Some(s) => Some(crate::text::copy_str(s)),
        None => None,
    }
}

/// Owned copies of optional borrowed strings.
fn owned_opts(v: &Vec<Option<&str>>) -> (r: Vec<Option<String>>)
    ensures
        Seq::new(r@.len(), |i: int| opt_view(r@[i])) == Seq::new(v@.len(), |i: int| str_opt(v@[i])),
{
    let mut r: Vec<Option<String>> = Vec::new();
    let mut i: usize = 0;
    while i < v.len()
        invariant
            i <= v.len(),
            r@.len() == i,
            forall|k: int| 0 <= k < i ==> #[trigger] opt_view(r@[k]) == str_opt(v@[k]),
        decreases v.len() - i,
    {
        r.push(owned_opt(v[i]));
        i += 1;
    }
    assert(Seq::new(r@.len(), |i: int| opt_view(r@[i])) =~= Seq::new(v@.len(), |i: int| str_opt(v@[i])));
    r
}

/// What goblin's ELF parser reads from `bytes`; `None` when it rejects them.
pub uninterp spec fn goblin_elf(bytes: Seq<u8>) -> Option<GoblinElfView>;

/// Some dynamic symbol is named `dlopen`.
pub open spec fn imports_dlopen(syms: Seq<Option<Seq<char>>>) -> bool {
    exists|i: int| 0 <= i < syms.len() && #[trigger] syms[i] == Some("dlopen"@)
}

/// Whether some dynamic symbol is named `dlopen`.
fn names_dlopen(syms: &Vec<Option<String>>) -> (b: bool)
    ensures
        b == imports_dlopen(Seq::new(syms@.len(), |i: int| opt_view(syms@[i]))),
{
    let ghost v = Seq::new(syms@.len(), |i: int| opt_view(syms@[i]));
    let mut i: usize = 0;
    while i < syms.len()
        invariant
            i <= syms.len(),
            v == Seq::new(syms@.len(), |i: int| opt_view(syms@[i])),
            forall|k: int| 0 <= k < i ==> #[trigger] v[k] != Some("dlopen"@),
        decreases syms.len() - i,
    {
        match &syms[i] {
            Some(n) => {
                if crate::text::str_eq(n.as_str(), "dlopen") {
                    assert(v[i as int] == Some("dlopen"@));
                    return true;
                }
                assert(v[i as int] == Some(n@));
            },
            None => {
                assert(v[i as int] is None);
            },
        }
        i += 1;
    }
    false
}

/// The facts this tool reads from a parsed ELF: the linking facts as goblin gives
/// them, with `uses_dlopen` set when a dynamic symbol is named `dlopen`, and the
/// hardening facts.
pub open spec fn spec_facts(g: GoblinElfView) -> ElfFactsView {
    ElfFactsView {
        link: ElfInfoView {
            interpreter: g.interpreter,
            needed: g.libraries,
            rpaths: g.rpaths,
            runpaths: g.runpaths,
            soname: g.soname,
            is_64: g.is_64,
            machine: g.e_machine,
            uses_dlopen: imports_dlopen(g.dynsyms),
        },
        hardening: HardeningFactsView {
            e_type: g.e_type,
            dyn_flags: g.dyn_flags,
            segments: g.segments,
            dynsyms: g.dynsyms,
        },
    }
}

/// A copy of a list of pairs.
fn copy_pairs(v: &Vec<(u32, u32)>) -> (r: Vec<(u32, u32)>)
    ensures
        r@ == v@,
{
    let mut r: Vec<(u32, u32)> = Vec::new();
    let mut i: usize = 0;
    while i < v.len()
        invariant
            i <= v.len(),
            r@ == v@.take(i as int),
        decreases v.len() - i,
    {
        r.push(v[i]);
        i += 1;
        assert(r@ =~= v@.take(i as int));
    }
    assert(v@.take(v@.len() as int) =~= v@);
    r
}

impl ElfFacts {
    /// The facts of one parsed file.
    pub fn from_parsed(g: &GoblinElf) -> (f: ElfFacts)
        ensures
            f@ == spec_facts(g@),
    {
        let dynsyms = owned_opts(&g.dynsyms);
        let uses_dlopen = names_dlopen(&dynsyms);
        let link = ElfInfo {
            interpreter: owned_opt(g.interpreter),
            needed: owned_strs(&g.libraries),
            rpaths: owned_strs(&g.rpaths),
            runpaths: owned_strs(&g.runpaths),
            soname: owned_opt(g.soname),
            is_64: g.is_64,
            machine: g.e_machine,
            uses_dlopen,
        };
        let f = ElfFacts {
            link,
            hardening: HardeningFacts { e_type: g.e_type, dyn_flags: g.dyn_flags, segments: copy_pairs(&g.segments), dynsyms },
        };
        assert(f@.link =~= spec_facts(g@).link);
        f
    }
}

/// Parses `bytes` with `goblin::elf::Elf::parse` and hands out the fields of
/// [`GoblinElf`], borrowing the strings from `bytes`.
///
/// Trusted: the result is named by [`goblin_elf`], a function of the bytes alone;
/// nothing more is claimed of the parser.
#[verifier::external_body]
fn goblin_parse<'a>(bytes: &'a [u8]) -> (r: Option<GoblinElf<'a>>)
    ensures
        match r {
            Some(g) => goblin_elf(bytes@) == Some(g@),
            None => goblin_elf(bytes@) is None,
        },
{
    let e = goblin::elf::Elf::parse(bytes).ok()?;
    let dyn_flags = e.dynamic.as_ref().map(|d| (d.info.flags, d.info.flags_1));
    let segments = e.program_headers.iter().map(|p| (p.p_type, p.p_flags)).collect();
    let dynsyms = e.dynsyms.iter().map(|y| e.dynstrtab.get_at(y.st_name)).collect();
    Some(GoblinElf { interpreter: e.interpreter, libraries: e.libraries, rpaths: e.rpaths,
        runpaths: e.runpaths, soname: e.soname, is_64: e.is_64, e_machine: e.header.e_machine,
        e_type: e.header.e_type, dyn_flags, segments, dynsyms })
}

/// Why ELF bytes were refused.
#[derive(Debug, Clone, Copy, PartialEq, Eq, Structural)]
pub enum ElfError {
    /// The bytes are not a valid ELF binary.
    NotElf,
}

impl ElfError {
    /// A human-readable message.
    pub fn message(&self) -> (s: &'static str)
        ensures
            s@ == "not a valid ELF binary"@,
    {
        "not a valid ELF binary"
    }
}

/// Parse ELF bytes into the facts this tool reads; refused exactly when goblin
/// refuses the bytes.
pub fn parse_elf(bytes: &[u8]) -> (r: Result<ElfFacts, ElfError>)
    ensures
        match r {
            Ok(f) => goblin_elf(bytes@) matches Some(g) && f@ == spec_facts(g),
            Err(_) => goblin_elf(bytes@) is None,
        },
{
    match goblin_parse(bytes) {
        Some(g) => Ok(ElfFacts::from_parsed(&g)),
        None => Err(ElfError::NotElf),
    }
}

} // verus!
