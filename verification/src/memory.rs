//! Memory limits and memory categories: the allocation decision of a limited
//! allocator, the limit it enforces, and the registry of category names.

use vstd::prelude::*;
use vstd::string::StringSliceAdditionalSpecFns;
use crate::error::Error;
use crate::string::bytes_equal;

verus! {

/// The most categories a VM holds, `main` included.
pub const MAX_CATEGORIES: usize = 255;

/// The heap size an allocation would leave: `used - osize + nsize`,
/// saturating at both ends.
pub open spec fn spec_projected(used: usize, osize: usize, nsize: usize) -> int {
    let freed: int = if used >= osize { used - osize } else { 0 };
    if freed + nsize > usize::MAX { usize::MAX as int } else { freed + nsize }
}

/// Whether the limited allocator lets an allocation through: a limit of 0 is
/// no limit, a shrinking allocation always passes, and a growing one passes
/// unless the projected heap exceeds the limit.
pub open spec fn spec_allows(limit: usize, used: usize, osize: usize, nsize: usize) -> bool {
    !(limit != 0 && nsize > osize && spec_projected(used, osize, nsize) > limit)
}

/// The allocation decision of the limited allocator.
pub fn allows_allocation(limit: usize, used: usize, osize: usize, nsize: usize) -> (r: bool)
    ensures
        r == spec_allows(limit, used, osize, nsize),
{
    if limit != 0 && nsize > osize {
        let projected = used.saturating_sub(osize).saturating_add(nsize);
        if projected > limit {
            return false;
        }
    }
    true
}

/// Whether a category name is valid: non-empty, of ASCII letters, digits
/// and `_`.
pub open spec fn spec_valid_category(name: Seq<u8>) -> bool {
    name.len() > 0 && forall|i: int| 0 <= i < name.len() ==> spec_is_word_byte(#[trigger] name[i])
}

/// An ASCII letter, digit or `_`.
pub open spec fn spec_is_word_byte(b: u8) -> bool {
    (48 <= b <= 57) || (65 <= b <= 90) || (97 <= b <= 122) || b == 95
}

/// Whether `name` is a valid category name.
pub fn is_valid_category(name: &[u8]) -> (r: bool)
    ensures
        r == spec_valid_category(name@),
{
    if name.len() == 0 {
        return false;
    }
    let mut i: usize = 0;
    while i < name.len()
        invariant
            i <= name.len(),
            forall|j: int| 0 <= j < i ==> spec_is_word_byte(#[trigger] name@[j]),
        decreases name.len() - i,
    {
        let b = name[i];
        if !((48 <= b && b <= 57) || (65 <= b && b <= 90) || (97 <= b && b <= 122) || b == 95) {
            return false;
        }
        i += 1;
    }
    true
}

/// The text of a name as `{:?}` prints it (quoted, escaped).
pub uninterp spec fn spec_debug_text(s: Seq<char>) -> Seq<char>;

/// The `{:?}` text of `s` (std's `Debug` for `str`).
#[verifier::external_body]
fn debug_text(s: &str) -> (r: String)
    ensures
        r@ == spec_debug_text(s@),
{
    format!("{:?}", s)
}

/// The error for an invalid category name.
pub open spec fn spec_invalid_category_error(e: Error, name: Seq<char>) -> bool {
    e matches Error::RuntimeError(m) && m@ == "invalid memory category name: "@ + spec_debug_text(name)
}

/// The error when the category table is full.
pub open spec fn spec_too_many_categories_error(e: Error) -> bool {
    e matches Error::RuntimeError(m) && m@ == "too many memory categories (limit 254 user categories)"@
}

/// The memory control of a VM: the limit, and the category names by id.
#[derive(Debug)]
pub struct MemoryState {
    pub(crate) limit: usize,
    pub(crate) limited: bool,
    pub(crate) categories: Vec<Vec<u8>>,
    pub(crate) current: u8,
}

/// No name occurs twice.
pub open spec fn spec_names_distinct(s: Seq<Seq<u8>>) -> bool {
    forall|i: int, j: int| 0 <= i < s.len() && 0 <= j < s.len() && i != j ==> #[trigger] s[i] != #[trigger] s[j]
}

impl MemoryState {
    /// The category table: names distinct, `main` first once created, and
    /// at most [`MAX_CATEGORIES`] of them.
    pub closed spec fn wf(&self) -> bool {
        &&& spec_names_distinct(self.spec_categories())
        &&& self.categories@.len() <= MAX_CATEGORIES
        &&& self.categories@.len() > 0 ==> self.categories@[0]@ == spec_main_name()
    }

    /// The category names, by id.
    pub closed spec fn spec_categories(&self) -> Seq<Seq<u8>> {
        self.categories@.map_values(|v: Vec<u8>| v@)
    }

    /// The limit in bytes (0: none).
    pub closed spec fn spec_limit(&self) -> usize {
        self.limit
    }

    /// Whether the limited allocator is installed.
    pub closed spec fn spec_limited(&self) -> bool {
        self.limited
    }

    /// The category that new allocations are charged to.
    pub closed spec fn spec_current(&self) -> u8 {
        self.current
    }

    /// No limit and no category table yet.
    pub fn new() -> (r: MemoryState)
        ensures
            r.wf(),
            r.spec_limit() == 0,
            !r.spec_limited(),
            r.spec_categories() == Seq::<Seq<u8>>::empty(),
            r.spec_current() == 0,
    {
        let r = MemoryState { limit: 0, limited: false, categories: Vec::new(), current: 0 };
        assert(r.spec_categories() =~= Seq::<Seq<u8>>::empty());
        r
    }

    /// Sets the limit and returns the previous one (0 before any limit was set).
    pub fn set_memory_limit(&mut self, limit: usize) -> (r: usize)
        requires
            old(self).wf(),
        ensures
            final(self).wf(),
            r == old(self).spec_limit(),
            final(self).spec_limit() == limit,
            final(self).spec_limited(),
            final(self).spec_categories() == old(self).spec_categories(),
            final(self).spec_current() == old(self).spec_current(),
    {
        let prev = self.limit;
        self.limit = limit;
        self.limited = true;
        prev
    }

    /// The id of `name` in the table.
    fn find_category(&self, name: &[u8]) -> (r: Option<u8>)
        requires
            self.wf(),
        ensures
            r matches Some(id) ==> id < self.spec_categories().len() && self.spec_categories()[id as int] == name@,
            r is None ==> !self.spec_categories().contains(name@),
    {
        let mut i: usize = 0;
        while i < self.categories.len()
            invariant
                self.wf(),
                i <= self.categories@.len(),
                forall|j: int| 0 <= j < i ==> #[trigger] self.spec_categories()[j] != name@,
            decreases self.categories.len() - i,
        {
            if bytes_equal(self.categories[i].as_slice(), name) {
                return Some(i as u8);
            }
            i += 1;
        }
        None
    }

    /// Charges new allocations to the category `name`, creating it (and the
    /// table, with `main` as id 0) when new.
    pub fn set_memory_category(&mut self, name: &str) -> (r: Result<(), Error>)
        requires
            old(self).wf(),
        ensures
            final(self).wf(),
            final(self).spec_limit() == old(self).spec_limit(),
            final(self).spec_limited() == old(self).spec_limited(),
            !spec_valid_category(name.spec_bytes()) ==> (r matches Err(e) && spec_invalid_category_error(e, name@)
                && final(self).spec_categories() == old(self).spec_categories()
                && final(self).spec_current() == old(self).spec_current()),
            spec_valid_category(name.spec_bytes()) ==> ({
                let base = spec_with_main(old(self).spec_categories());
                if base.contains(name.spec_bytes()) {
                    r is Ok && final(self).spec_categories() == base
                        && base[final(self).spec_current() as int] == name.spec_bytes()
                } else if base.len() >= MAX_CATEGORIES {
                    r matches Err(e) && spec_too_many_categories_error(e)
                        && final(self).spec_current() == old(self).spec_current()
                } else {
                    r is Ok && final(self).spec_categories() == base.push(name.spec_bytes())
                        && final(self).spec_current() == base.len()
                }
            }),
    {
        let bytes = name.as_bytes();
        if !is_valid_category(bytes) {
            proof { reveal_strlit(""); }
            let text = debug_text(name);
            assert(""@ =~= Seq::<char>::empty());
            return Err(Error::RuntimeError(crate::error::concat3("invalid memory category name: ", text.as_str(), "")));
        }
        if self.categories.len() == 0 {
            self.categories.push(vec![109u8, 97u8, 105u8, 110u8]);
            proof {
                assert(self.categories@[0]@ =~= spec_main_name());
                assert(self.spec_categories() =~= spec_with_main(old(self).spec_categories()));
            }
        }
        proof {
            assert(self.spec_categories() =~= spec_with_main(old(self).spec_categories()));
        }
        match self.find_category(bytes) {
            Some(id) => {
                self.current = id;
                Ok(())
            },
            None => {
                let next = self.categories.len();
                if next >= MAX_CATEGORIES {
                    return Err(Error::runtime("too many memory categories (limit 254 user categories)"));
                }
                let ghost before = self.spec_categories();
                self.categories.push(crate::string::copy_bytes(bytes));
                self.current = next as u8;
                proof {
                    assert(self.spec_categories() =~= before.push(name.spec_bytes()));
                    assert forall|i: int, j: int| 0 <= i < self.spec_categories().len() && 0 <= j < self.spec_categories().len()
                        && i != j implies #[trigger] self.spec_categories()[i] != #[trigger] self.spec_categories()[j] by {
                        if i == before.len() {
                            assert(before.contains(before[j]));
                        }
                        if j == before.len() {
                            assert(before.contains(before[i]));
                        }
                    }
                }
                Ok(())
            },
        }
    }

    /// The id of the category `name`, if it exists.
    pub fn category_id(&self, name: &str) -> (r: Option<u8>)
        requires
            self.wf(),
        ensures
            r matches Some(id) ==> id < self.spec_categories().len() && self.spec_categories()[id as int]
                == name.spec_bytes(),
            r is None ==> !self.spec_categories().contains(name.spec_bytes()),
    {
        self.find_category(name.as_bytes())
    }
}

/// The bytes of the name `main`.
pub open spec fn spec_main_name() -> Seq<u8> {
    seq![109u8, 97u8, 105u8, 110u8]
}

/// The category table with `main` created when it was empty.
pub open spec fn spec_with_main(cats: Seq<Seq<u8>>) -> Seq<Seq<u8>> {
    if cats.len() == 0 { seq![spec_main_name()] } else { cats }
}

/// A category name keeps its id: asking for an existing name again selects
/// the same id and leaves the table as it was.
pub proof fn law_category_id_stable(cats: Seq<Seq<u8>>, name: Seq<u8>, id: int)
    requires
        spec_names_distinct(cats),
        0 <= id < cats.len(),
        cats[id] == name,
    ensures
        forall|j: int| 0 <= j < cats.len() && #[trigger] cats[j] == name ==> j == id,
{
}

/// A category name is valid exactly when it is not empty and every byte is
/// an ASCII digit, an upper-case or lower-case ASCII letter, or `_`.
pub proof fn law_valid_category_names(name: Seq<u8>)
    ensures
        spec_valid_category(name) <==> (name.len() > 0 && forall|i: int| 0 <= i < name.len() ==> {
            let b = #[trigger] name[i];
            ('0' as int <= b <= '9' as int) || ('A' as int <= b <= 'Z' as int) || ('a' as int <= b <= 'z' as int)
                || b == '_' as int
        }),
{
}

} // verus!
