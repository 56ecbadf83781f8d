//! The directory scanner configured with ignore rules: the messages it handles, the
//! override matcher its walk uses, and the name-based ignore check with which a
//! scan lists a directory.

use vstd::prelude::*;
use ignore::overrides::{Override, OverrideBuilder};

use crate::walk::{classify, kind_of, EntryInfo, EntryKind};
use crate::table::texts;

verus! {

#[verifier::external_type_specification]
#[verifier::external_body]
pub struct ExOverrideBuilder(OverrideBuilder);

#[verifier::external_type_specification]
#[verifier::external_body]
pub struct ExOverride(Override);

/// The directory an override builder matches relative to.
pub uninterp spec fn override_root(b: OverrideBuilder) -> Seq<char>;

/// The glob lines offered to an override builder, in order.
pub uninterp spec fn override_lines(b: OverrideBuilder) -> Seq<Seq<char>>;

/// Whether building the override matcher for `root` from the glob lines `lines`
/// (offered in order, each rejected line leaving the builder as it was) succeeds.
pub uninterp spec fn overrides_build_ok(root: Seq<char>, lines: Seq<Seq<char>>) -> bool;

/// The directory handed to the builder that an override matcher was built from;
/// the matcher matches paths relative to it.
pub uninterp spec fn matcher_root(o: Override) -> Seq<char>;

/// The glob lines offered, in order, to the builder that an override matcher was
/// built from; the matcher holds the lines among them that parsed.
pub uninterp spec fn matcher_lines(o: Override) -> Seq<Seq<char>>;

/// Calls `ignore::overrides::OverrideBuilder::new`: a builder matching relative to
/// `root`, with no glob offered yet.
#[verifier::external_body]
fn override_builder(root: &str) -> (b: OverrideBuilder)
    ensures
        override_root(b) == root@,
        override_lines(b) == Seq::<Seq<char>>::empty(),
{
    OverrideBuilder::new(root)
}

/// Calls `ignore::overrides::OverrideBuilder::add`, offering one glob line; a line
/// that does not parse is rejected and leaves the builder as it was, and whether
/// it was taken is not passed on.
#[verifier::external_body]
fn override_add(b: &mut OverrideBuilder, glob: &str)
    ensures
        override_root(*final(b)) == override_root(*old(b)),
        override_lines(*final(b)) == override_lines(*old(b)).push(glob@),
{
    let _ = b.add(glob);
}

/// Calls `ignore::overrides::OverrideBuilder::build`: the matcher, when building
/// it from what was offered succeeds; it is built from this builder's root and
/// lines.
#[verifier::external_body]
fn override_build(b: &OverrideBuilder) -> (r: Option<Override>)
    ensures
        r is Some == overrides_build_ok(override_root(*b), override_lines(*b)),
        r matches Some(o) ==> matcher_root(o) == override_root(*b) && matcher_lines(o)
            == override_lines(*b),
{
    match b.build() {
        Ok(o) => Some(o),
        Err(_) => None,
    }
}

/// A scanner with its ignore rules.
#[derive(Debug, PartialEq, Eq)]
pub struct Scan {
    ignore: Vec<String>,
}

/// A request to scan a directory.
#[derive(Debug, PartialEq, Eq)]
pub struct Dir(pub String);

/// A request about one file.
#[derive(Debug, PartialEq, Eq)]
pub struct File(pub String);

/// Work of the name-filtering scan: a directory or a file with its depth, or a
/// stop request.
#[derive(Debug, PartialEq, Eq)]
pub enum FinderMsg {
    Dir(String, u32),
    File(String, u32),
    Close(u32),
}

/// Whether `name` is one of the names in `ignore` (compared whole).
pub open spec fn ignored_by(ignore: Seq<String>, name: Seq<char>) -> bool {
    exists|i: int| 0 <= i < ignore.len() && (#[trigger] ignore[i])@ == name
}

/// The work that one listed entry of a directory at depth `level` gives to the
/// name-filtering scan: nothing when its name is ignored, else a directory one
/// level deeper, or a file at this level; links and other entries give nothing.
pub open spec fn scan_message(ignore: Seq<String>, e: EntryInfo, level: u32) -> Option<FinderMsg> {
    if ignored_by(ignore, e.name@) {
        None
    } else {
        match kind_of(e) {
            EntryKind::Dir => Some(FinderMsg::Dir(e.path, (level + 1) as u32)),
            EntryKind::File => Some(FinderMsg::File(e.path, level)),
            _ => None,
        }
    }
}

/// The work that the listed entries give, in order.
pub open spec fn scan_messages(ignore: Seq<String>, es: Seq<EntryInfo>, level: u32) -> Seq<
    FinderMsg,
>
    decreases es.len(),
{
    if es.len() == 0 {
        Seq::empty()
    } else {
        let prev = scan_messages(ignore, es.drop_last(), level);
        match scan_message(ignore, es.last(), level) {
            Some(m) => prev.push(m),
            None => prev,
        }
    }
}

impl Scan {
    /// A scanner with the ignore rules `i`.
    pub fn new(i: Vec<String>) -> (s: Scan)
        ensures
            s.ignores() == i@,
    {
        Scan { ignore: i }
    }

    /// The ignore rules.
    pub closed spec fn ignores(&self) -> Seq<String> {
        self.ignore@
    }

    /// The ignore rules.
    pub fn ignore_list(&self) -> (r: &Vec<String>)
        ensures
            r@ == self.ignores(),
    {
        &self.ignore
    }

    /// The override matcher of a walk from `root`: the ignore rules offered in
    /// order as glob lines; `None` when the matcher cannot be built.
    pub fn overrides(&self, root: &str) -> (r: Option<Override>)
        ensures
            r is Some == overrides_build_ok(root@, texts(self.ignores())),
            r matches Some(o) ==> matcher_root(o) == root@ && matcher_lines(o) == texts(
                self.ignores(),
            ),
    {
        let mut b = override_builder(root);
        let mut i: usize = 0;
        while i < self.ignore.len()
            invariant
                i <= self.ignore.len(),
                override_root(b) == root@,
                override_lines(b) == texts(self.ignore@).take(i as int),
            decreases self.ignore.len() - i,
        {
            override_add(&mut b, self.ignore[i].as_str());
            i = i + 1;
            assert(override_lines(b) =~= texts(self.ignore@).take(i as int));
        }
        assert(texts(self.ignore@).take(i as int) =~= texts(self.ignore@));
        override_build(&b)
    }

    /// Whether an entry called `name` is skipped: its name is one of the ignore
    /// rules.
    pub fn is_ignore(ignore: &Vec<String>, name: &str) -> (r: bool)
        ensures
            r == ignored_by(ignore@, name@),
    {
        let owned = name.to_owned();
        let mut i: usize = 0;
        while i < ignore.len()
            invariant
                i <= ignore.len(),
                owned@ == name@,
                forall|j: int| 0 <= j < i ==> (#[trigger] ignore@[j])@ != name@,
            decreases ignore.len() - i,
        {
            if ignore[i] == owned {
                assert(ignore@[i as int]@ == name@);
                return true;
            }
            i = i + 1;
        }
        false
    }

    /// The work that the listing of a directory at depth `level` gives, leaving
    /// out the entries whose names are ignored.
    pub fn load(&self, entries: &Vec<EntryInfo>, level: u32) -> (r: Vec<FinderMsg>)
        requires
            level < u32::MAX || forall|i: int|
                0 <= i < entries@.len() && kind_of(#[trigger] entries@[i]) == EntryKind::Dir
                    ==> ignored_by(self.ignores(), entries@[i].name@),
        ensures
            r@ == scan_messages(self.ignores(), entries@, level),
    {
        let mut out: Vec<FinderMsg> = Vec::new();
        let mut i: usize = 0;
        while i < entries.len()
            invariant
                i <= entries.len(),
                level < u32::MAX || forall|j: int|
                    0 <= j < entries@.len() && kind_of(#[trigger] entries@[j]) == EntryKind::Dir
                        ==> ignored_by(self.ignore@, entries@[j].name@),
                out@ == scan_messages(self.ignore@, entries@.take(i as int), level),
            decreases entries.len() - i,
        {
            let e = &entries[i];
            proof {
                assert(entries@.take(i + 1).drop_last() =~= entries@.take(i as int));
                assert(entries@.take(i + 1).last() == entries@[i as int]);
            }
            if !Scan::is_ignore(&self.ignore, e.name.as_str()) {
                match classify(e) {
                    EntryKind::Dir => {
                        assert(kind_of(entries@[i as int]) == EntryKind::Dir);
                        out.push(FinderMsg::Dir(e.path.clone(), level + 1));
                    },
                    EntryKind::File => {
                        out.push(FinderMsg::File(e.path.clone(), level));
                    },
                    _ => {},
                }
            }
            i = i + 1;
        }
        assert(entries@.take(entries.len() as int) =~= entries@);
        out
    }
}

} // verus!
