//! The parts of a parsed ELF container that the analysis reads: its section
//! table and, where present, its symbol table.

use vstd::prelude::*;

verus! {

/// The section that holds the executable code.
pub const CODE_SECTION: &'static str = ".text";

/// The name of the symbol that marks the program's entry function.
pub const MAIN_SYMBOL: &'static str = "main";

/// The section index that a `main` symbol must declare to be reported.
pub const MAIN_SECTION_INDEX: u16 = 14;

/// One line of the section table.
#[derive(Debug)]
pub struct SectionEntry {
    pub name: String,
    pub offset: u64,
    pub size: u64,
}

/// Where a section lies in the file: the offset of its first byte and its
/// length in bytes.
#[derive(Clone, Copy, Debug, PartialEq, Eq, Structural)]
pub struct SectionDescriptor {
    pub offset: u64,
    pub size: u64,
}

/// One line of the symbol table.
#[derive(Debug)]
pub struct SymbolEntry {
    pub name: String,
    pub shndx: u16,
    pub value: u64,
    pub size: u64,
}

/// The address and size on record for `main`; both zero when the symbol
/// table holds no such symbol.
#[derive(Clone, Copy, Debug, PartialEq, Eq, Structural)]
pub struct MainSymbol {
    pub offset: u64,
    pub size: u64,
}

/// A parsed container. `symbols` is `None` when the file has no symbol
/// table.
#[derive(Debug)]
pub struct Container {
    pub sections: Vec<SectionEntry>,
    pub symbols: Option<Vec<SymbolEntry>>,
}

/// The first section of the table that bears `name`.
pub open spec fn section_named(sections: Seq<SectionEntry>, name: Seq<char>) -> Option<
    SectionDescriptor,
>
    decreases sections.len(),
{
    if sections.len() == 0 {
        None
    } else if sections.first().name@ == name {
        Some(SectionDescriptor { offset: sections.first().offset, size: sections.first().size })
    } else {
        section_named(sections.drop_first(), name)
    }
}

/// Whether a symbol is the `main` that gets reported.
pub open spec fn is_main(symbol: SymbolEntry) -> bool {
    symbol.name@ == MAIN_SYMBOL@ && symbol.shndx == MAIN_SECTION_INDEX
}

/// What the symbol table says of `main`: the values of the last symbol that
/// qualifies, zeros if none does.
pub open spec fn main_symbol_of(symbols: Seq<SymbolEntry>) -> MainSymbol
    decreases symbols.len(),
{
    if symbols.len() == 0 {
        MainSymbol { offset: 0, size: 0 }
    } else if is_main(symbols.last()) {
        MainSymbol { offset: symbols.last().value, size: symbols.last().size }
    } else {
        main_symbol_of(symbols.drop_last())
    }
}

/// Whether the section lies within a file of `file_len` bytes.
pub open spec fn in_bounds(section: SectionDescriptor, file_len: nat) -> bool {
    section.offset + section.size <= file_len
}

/// The bytes of a section that lies within `file`.
pub open spec fn section_bytes(file: Seq<u8>, section: SectionDescriptor) -> Seq<u8> {
    file.subrange(section.offset as int, section.offset + section.size)
}

/// Scans a symbol table for `main`.
pub fn locate_main(symbols: &Vec<SymbolEntry>) -> (found: MainSymbol)
    ensures
        found == main_symbol_of(symbols@),
{
    let wanted = MAIN_SYMBOL.to_owned();
    let mut found = MainSymbol { offset: 0, size: 0 };
    let mut i: usize = 0;
    while i < symbols.len()
        invariant
            i <= symbols@.len(),
            wanted@ == MAIN_SYMBOL@,
            found == main_symbol_of(symbols@.take(i as int)),
        decreases symbols@.len() - i,
    {
        proof {
            let next = symbols@.take(i + 1);
            assert(next.drop_last() =~= symbols@.take(i as int));
        }
        if symbols[i].name == wanted && symbols[i].shndx == MAIN_SECTION_INDEX {
            found = MainSymbol { offset: symbols[i].value, size: symbols[i].size };
        }
        i += 1;
    }
    proof {
        assert(symbols@.take(i as int) =~= symbols@);
    }
    found
}

impl Container {
    /// Looks a section up by name. Where several sections bear the name, the
    /// first one is returned.
    pub fn find_section(&self, name: &str) -> (found: Option<SectionDescriptor>)
        ensures
            found == section_named(self.sections@, name@),
    {
        let wanted = name.to_owned();
        let mut i: usize = 0;
        proof {
            assert(self.sections@.skip(0) =~= self.sections@);
        }
        while i < self.sections.len()
            invariant
                i <= self.sections@.len(),
                wanted@ == name@,
                section_named(self.sections@, name@) == section_named(
                    self.sections@.skip(i as int),
                    name@,
                ),
            decreases self.sections@.len() - i,
        {
            proof {
                let rest = self.sections@.skip(i as int);
                assert(rest.drop_first() =~= self.sections@.skip(i + 1));
            }
            if self.sections[i].name == wanted {
                return Some(
                    SectionDescriptor {
                        offset: self.sections[i].offset,
                        size: self.sections[i].size,
                    },
                );
            }
            i += 1;
        }
        None
    }

    /// What the symbol table says of `main`, or `None` when the container
    /// has no symbol table.
    pub fn main_symbol(&self) -> (found: Option<MainSymbol>)
        ensures
            found == match self.symbols {
                Some(symbols) => Some(main_symbol_of(symbols@)),
                None => None,
            },
    {
        match &self.symbols {
            Some(symbols) => Some(locate_main(symbols)),
            None => None,
        }
    }
}

} // verus!
