use vstd::prelude::*;
use crate::ev::AxisOrBtn;
use crate::native::{element_nec, native_code_spec, native_element, native_element_spec, lemma_native_round_trip};
use crate::raw::EvCode;

verus! {

/// Why a set of mapping entries was refused.
#[derive(Copy, Clone, Debug, PartialEq, Eq, Structural)]
pub enum MappingError {
    /// `Button::Unknown` or `Axis::Unknown` used as a mapping key.
    UnknownElement,
    /// One code claimed by two entries, or one element given two codes.
    DuplicatedEntry,
    /// The mapping names a code that the device does not have.
    InvalidCode,
    /// The mapping text does not follow the `GUID,name,field:code,...` grammar.
    ParseError,
}

/// No two entries share a code or an element, and no entry names an `Unknown` element.
pub open spec fn entries_wf(e: Seq<(EvCode, AxisOrBtn)>) -> bool {
    &&& forall|i: int, j: int|
        0 <= i < e.len() && 0 <= j < e.len() && i != j ==> (#[trigger] e[i]).0 != (#[trigger] e[j]).0
    &&& forall|i: int, j: int|
        0 <= i < e.len() && 0 <= j < e.len() && i != j ==> (#[trigger] e[i]).1 != (#[trigger] e[j]).1
    &&& forall|i: int| 0 <= i < e.len() ==> !(#[trigger] e[i].1).is_unknown_spec()
}

/// Element that the entries give to code `c`.
pub open spec fn lookup(e: Seq<(EvCode, AxisOrBtn)>, c: EvCode) -> Option<AxisOrBtn> {
    if exists|i: int| 0 <= i < e.len() && (#[trigger] e[i]).0 == c {
        Some(e[choose|i: int| 0 <= i < e.len() && (#[trigger] e[i]).0 == c].1)
    } else {
        None
    }
}

/// Code that the entries give to element `t`.
pub open spec fn lookup_rev(e: Seq<(EvCode, AxisOrBtn)>, t: AxisOrBtn) -> Option<EvCode> {
    if exists|i: int| 0 <= i < e.len() && (#[trigger] e[i]).1 == t {
        Some(e[choose|i: int| 0 <= i < e.len() && (#[trigger] e[i]).1 == t].0)
    } else {
        None
    }
}

/// Bidirectional table between platform codes and logical elements for one device.
///
/// The default mapping is the common layout of [`crate::native`]; any other mapping is a list of
/// entries resolved from a mapping database.
#[derive(Clone, Debug)]
pub struct Mapping {
    entries: Vec<(EvCode, AxisOrBtn)>,
    name: String,
    default: bool,
}

impl Mapping {
    pub closed spec fn entries_spec(&self) -> Seq<(EvCode, AxisOrBtn)> {
        self.entries@
    }

    pub closed spec fn name_spec(&self) -> Seq<char> {
        self.name@
    }

    pub closed spec fn is_default_spec(&self) -> bool {
        self.default
    }

    /// The entries satisfy [`entries_wf`]; the default mapping has none.
    pub open spec fn wf(&self) -> bool {
        &&& entries_wf(self.entries_spec())
        &&& self.is_default_spec() ==> self.entries_spec().len() == 0
    }

    /// Element mapped to code `c`.
    pub open spec fn map_spec(&self, c: EvCode) -> Option<AxisOrBtn> {
        if self.is_default_spec() {
            native_element_spec(c)
        } else {
            lookup(self.entries_spec(), c)
        }
    }

    /// Code mapped to element `t`.
    pub open spec fn map_rev_spec(&self, t: AxisOrBtn) -> Option<EvCode> {
        if self.is_default_spec() {
            native_code_spec(t)
        } else {
            lookup_rev(self.entries_spec(), t)
        }
    }

    /// The mapping of the common layout, with an empty name.
    pub fn default_mapping() -> (r: Mapping)
        ensures
            r.wf(),
            r.is_default_spec(),
            r.name_spec() == Seq::<char>::empty(),
    {
        Mapping { entries: Vec::new(), name: String::new(), default: true }
    }

    /// Mapping resolved from a database, with its name and entries.
    ///
    /// Fails with `UnknownElement` if an entry names an `Unknown` element, else with
    /// `DuplicatedEntry` if two entries share a code or an element.
    pub fn from_entries(entries: Vec<(EvCode, AxisOrBtn)>, name: String) -> (r: Result<
        Mapping,
        MappingError,
    >)
        ensures
            r is Ok <==> entries_wf(entries@),
            (exists|i: int| 0 <= i < entries@.len() && (#[trigger] entries@[i]).1.is_unknown_spec())
                ==> r == Err::<Mapping, MappingError>(MappingError::UnknownElement),
            r is Err && !(exists|i: int|
                0 <= i < entries@.len() && (#[trigger] entries@[i]).1.is_unknown_spec()) ==> r
                == Err::<Mapping, MappingError>(MappingError::DuplicatedEntry),
            r matches Ok(m) ==> m.wf() && !m.is_default_spec() && m.entries_spec() == entries@
                && m.name_spec() == name@,
    {
        let n = entries.len();
        let mut i: usize = 0;
        while i < n
            invariant
                n == entries@.len(),
                0 <= i <= n,
                forall|k: int| 0 <= k < i ==> !(#[trigger] entries@[k]).1.is_unknown_spec(),
            decreases n - i,
        {
            if entries[i].1.is_unknown() {
                return Err(MappingError::UnknownElement);
            }
            i = i + 1;
        }
        let mut i: usize = 0;
        while i < n
            invariant
                n == entries@.len(),
                0 <= i <= n,
                forall|k: int| 0 <= k < n ==> !(#[trigger] entries@[k]).1.is_unknown_spec(),
                forall|a: int, b: int|
                    0 <= a < i && 0 <= b < n && a != b ==> (#[trigger] entries@[a]).0
                        != (#[trigger] entries@[b]).0 && entries@[a].1 != entries@[b].1,
            decreases n - i,
        {
            let mut j: usize = 0;
            while j < n
                invariant
                    n == entries@.len(),
                    0 <= i < n,
                    forall|k: int| 0 <= k < n ==> !(#[trigger] entries@[k]).1.is_unknown_spec(),
                    0 <= j <= n,
                    forall|a: int, b: int|
                        0 <= a < i && 0 <= b < n && a != b ==> (#[trigger] entries@[a]).0
                            != (#[trigger] entries@[b]).0 && entries@[a].1 != entries@[b].1,
                    forall|b: int|
                        0 <= b < j && b != i ==> (#[trigger] entries@[b]).0 != entries@[i as int].0
                            && entries@[b].1 != entries@[i as int].1,
                decreases n - j,
            {
                if j != i && (entries[j].0 == entries[i].0 || entries[j].1 == entries[i].1) {
                    return Err(MappingError::DuplicatedEntry);
                }
                j = j + 1;
            }
            i = i + 1;
        }
        Ok(Mapping { entries, name, default: false })
    }

    /// Name of the mapping.
    pub fn name(&self) -> (r: &str)
        ensures
            r@ == self.name_spec(),
    {
        self.name.as_str()
    }

    /// Whether this is the default mapping of the common layout.
    pub fn is_default(&self) -> (r: bool)
        ensures
            r == self.is_default_spec(),
    {
        self.default
    }

    /// Element mapped to code `c`, if any.
    pub fn map(&self, c: &EvCode) -> (r: Option<AxisOrBtn>)
        requires
            self.wf(),
        ensures
            r == self.map_spec(*c),
    {
        if self.default {
            return native_element(*c);
        }
        let n = self.entries.len();
        let mut i: usize = 0;
        while i < n
            invariant
                self.wf(),
                !self.is_default_spec(),
                n == self.entries@.len(),
                0 <= i <= n,
                forall|k: int| 0 <= k < i ==> (#[trigger] self.entries@[k]).0 != *c,
            decreases n - i,
        {
            if self.entries[i].0 == *c {
                let ghost e = self.entries@;
                assert(e[i as int].0 == *c);
                let ghost j = choose|j: int| 0 <= j < e.len() && (#[trigger] e[j]).0 == *c;
                assert(j == i as int);
                return Some(self.entries[i].1);
            }
            i = i + 1;
        }
        None
    }

    /// Code mapped to element `t`, if any.
    pub fn map_rev(&self, t: &AxisOrBtn) -> (r: Option<EvCode>)
        requires
            self.wf(),
        ensures
            r == self.map_rev_spec(*t),
    {
        if self.default {
            return element_nec(*t);
        }
        let n = self.entries.len();
        let mut i: usize = 0;
        while i < n
            invariant
                self.wf(),
                !self.is_default_spec(),
                n == self.entries@.len(),
                0 <= i <= n,
                forall|k: int| 0 <= k < i ==> (#[trigger] self.entries@[k]).1 != *t,
            decreases n - i,
        {
            if self.entries[i].1 == *t {
                let ghost e = self.entries@;
                assert(e[i as int].1 == *t);
                let ghost j = choose|j: int| 0 <= j < e.len() && (#[trigger] e[j]).1 == *t;
                assert(j == i as int);
                return Some(self.entries[i].0);
            }
            i = i + 1;
        }
        None
    }
}

/// Round trip of a well-formed mapping: the code mapped to the element of `c` is `c` itself, and
/// the element of the code of `t` is `t`.
pub proof fn lemma_map_round_trip(m: Mapping, c: EvCode, t: AxisOrBtn)
    requires
        m.wf(),
    ensures
        m.map_spec(c) == Some(t) ==> m.map_rev_spec(t) == Some(c),
        m.map_rev_spec(t) == Some(c) ==> m.map_spec(c) == Some(t),
        m.map_spec(c) matches Some(u) ==> !u.is_unknown_spec(),
{
    lemma_native_round_trip(c, t);
    if let Some(u) = native_element_spec(c) {
        lemma_native_round_trip(c, u);
    }
    if !m.is_default_spec() {
        let e = m.entries_spec();
        if m.map_spec(c) == Some(t) {
            let i = choose|i: int| 0 <= i < e.len() && (#[trigger] e[i]).0 == c;
            assert(e[i].1 == t);
            let j = choose|j: int| 0 <= j < e.len() && (#[trigger] e[j]).1 == t;
            assert(i == j);
        }
        if m.map_rev_spec(t) == Some(c) {
            let j = choose|j: int| 0 <= j < e.len() && (#[trigger] e[j]).1 == t;
            assert(e[j].0 == c);
            let i = choose|i: int| 0 <= i < e.len() && (#[trigger] e[i]).0 == c;
            assert(i == j);
        }
        if m.map_spec(c) is Some {
            let i = choose|i: int| 0 <= i < e.len() && (#[trigger] e[i]).0 == c;
            assert(!e[i].1.is_unknown_spec());
        }
    }
}

} // verus!
