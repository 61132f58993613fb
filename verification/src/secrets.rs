//! The secrets journal: the rows it stores, the routing of paths to key
//! encryption keys, and the bookkeeping of a one-time import.
//!
//! The journal is append-only: every write adds an entry and a read returns
//! the newest entry for a path. Paths beginning with `/` are internal
//! bookkeeping entries (the import marker), never credentials.

use vstd::prelude::*;

use crate::text::push_char;

verus! {

/// The envelope-encryption columns of one journal entry, exactly as they
/// are written.
pub struct NewSecretEntry<'a> {
    pub path: &'a str,
    pub encrypted_value: &'a [u8],
    pub nonce: &'a [u8],
    pub kek_id: &'a str,
    pub encrypted_dek: &'a [u8],
    pub dek_nonce: &'a [u8],
}

/// Whether a journal path names an internal bookkeeping entry rather than a
/// credential: it begins with `/`.
pub open spec fn is_bookkeeping(path: Seq<char>) -> bool {
    path.len() > 0 && path[0] == '/'
}

/// Whether `path` names an internal bookkeeping entry.
pub fn is_bookkeeping_path(path: &str) -> (r: bool)
    ensures
        r == is_bookkeeping(path@),
{
    let n = path.unicode_len();
    if n == 0 {
        false
    } else {
        path.get_char(0) == '/'
    }
}

impl<'a> NewSecretEntry<'a> {
    /// Whether this entry is internal bookkeeping, which the queries scoped
    /// to a key encryption key leave out.
    pub fn is_bookkeeping(&self) -> (r: bool)
        ensures
            r == is_bookkeeping(self.path@),
    {
        is_bookkeeping_path(self.path)
    }
}

/// Key material derived from a seed: byte `i` is `seed + i`, wrapping at 256.
pub fn test_key(seed: u8) -> (key: [u8; 32])
    ensures
        forall|i: int| 0 <= i < 32 ==> key@[i] == ((seed + i) % 256) as u8,
{
    let mut key = [0u8; 32];
    let mut i: usize = 0;
    while i < 32
        invariant
            i <= 32,
            key@.len() == 32,
            forall|j: int| 0 <= j < i ==> key@[j] == ((seed + j) % 256) as u8,
        decreases 32 - i,
    {
        key[i] = seed.wrapping_add(i as u8);
        i = i + 1;
    }
    key
}

/// Routes journal paths to key encryption keys: an ordered list of
/// (path prefix, key id) pairs.
pub struct SecretRouting {
    routes: Vec<(String, String)>,
}

impl View for SecretRouting {
    type V = Seq<(Seq<char>, Seq<char>)>;

    closed spec fn view(&self) -> Seq<(Seq<char>, Seq<char>)> {
        self.routes@.map_values(|r: (String, String)| (r.0@, r.1@))
    }
}

impl SecretRouting {
    /// A routing made of the given (prefix, key id) pairs.
    pub fn new(routes: Vec<(String, String)>) -> (r: SecretRouting)
        ensures
            r@ == routes@.map_values(|p: (String, String)| (p.0@, p.1@)),
    {
        SecretRouting { routes }
    }

    /// The (prefix, key id) pairs, in order.
    pub fn routes(&self) -> (r: &Vec<(String, String)>)
        ensures
            r@.map_values(|p: (String, String)| (p.0@, p.1@)) == self@,
    {
        &self.routes
    }
}

/// A routing that sends every path to `kek_id`: the single route `/`.
pub fn catch_all_routing(kek_id: &str) -> (r: SecretRouting)
    ensures
        r@ == seq![(seq!['/'], kek_id@)],
{
    let mut root = String::new();
    push_char(&mut root, '/');
    let mut routes: Vec<(String, String)> = Vec::new();
    routes.push((root, kek_id.to_string()));
    let r = SecretRouting::new(routes);
    assert(r@ =~= seq![(seq!['/'], kek_id@)]);
    r
}

/// How an import treats paths that already hold entries.
#[derive(Clone, Copy, Debug, PartialEq, Eq)]
pub enum ImportApproach {
    /// A path that already has entries is left alone.
    MissingOnly,
    /// Every secret appends a new entry unconditionally.
    All,
}

/// What to do with one secret of an import.
#[derive(Clone, Copy, Debug, PartialEq, Eq)]
pub enum ImportAction {
    /// Leave it: the path already has entries.
    Skip,
    /// Encrypt it and insert it unless an entry appeared meanwhile (the
    /// insert checks again under the path's lock).
    InsertIfMissing,
    /// Encrypt it and append it.
    Insert,
}

/// Whether the import looks up the path before encrypting: only when
/// existing paths are to be left alone.
pub fn needs_existence_check(approach: ImportApproach) -> (r: bool)
    ensures
        r == (approach == ImportApproach::MissingOnly),
{
    match approach {
        ImportApproach::MissingOnly => true,
        ImportApproach::All => false,
    }
}

/// The action for one secret: under `MissingOnly` a path found to hold
/// entries is skipped and any other is inserted unless present; under `All`
/// every secret is appended.
pub open spec fn action_for(approach: ImportApproach, path_exists: bool) -> ImportAction {
    match approach {
        ImportApproach::MissingOnly => if path_exists { ImportAction::Skip } else { ImportAction::InsertIfMissing },
        ImportApproach::All => ImportAction::Insert,
    }
}

/// The action for one secret, given the approach and whether its path was
/// found to hold entries (only looked up under `MissingOnly`).
pub fn import_action(approach: ImportApproach, path_exists: bool) -> (r: ImportAction)
    ensures
        r == action_for(approach, path_exists),
{
    match approach {
        ImportApproach::MissingOnly => {
            if path_exists {
                ImportAction::Skip
            } else {
                ImportAction::InsertIfMissing
            }
        },
        ImportApproach::All => ImportAction::Insert,
    }
}

/// The tally of an import: how many secrets were written and how many were
/// left alone.
#[derive(Clone, Copy, Debug, PartialEq, Eq)]
pub struct ImportResult {
    pub imported: u64,
    pub skipped: u64,
}

/// Whether carrying out `action` wrote an entry; `inserted` is what a
/// guarded insert reported (ignored for the other actions).
pub open spec fn writes_entry(action: ImportAction, inserted: bool) -> bool {
    match action {
        ImportAction::Skip => false,
        ImportAction::InsertIfMissing => inserted,
        ImportAction::Insert => true,
    }
}

impl ImportResult {
    /// An empty tally.
    pub fn new() -> (r: ImportResult)
        ensures
            r.imported == 0,
            r.skipped == 0,
    {
        ImportResult { imported: 0, skipped: 0 }
    }

    /// Counts one secret after `action` was carried out: imported when it
    /// wrote an entry, skipped otherwise.
    pub fn count(&mut self, action: ImportAction, inserted: bool)
        requires
            old(self).imported + old(self).skipped < u64::MAX,
        ensures
            writes_entry(action, inserted) ==> final(self).imported == old(self).imported + 1 && final(self).skipped == old(self).skipped,
            !writes_entry(action, inserted) ==> final(self).skipped == old(self).skipped + 1 && final(self).imported == old(self).imported,
    {
        let wrote = match action {
            ImportAction::Skip => false,
            ImportAction::InsertIfMissing => inserted,
            ImportAction::Insert => true,
        };
        if wrote {
            self.imported = self.imported + 1;
        } else {
            self.skipped = self.skipped + 1;
        }
    }
}

/// One secret's course through an import: whether its path was found to
/// hold entries, and whether the guarded insert wrote it.
pub type SecretCourse = (bool, bool);

/// How many of `courses` wrote an entry under `approach`.
pub open spec fn imported_count(approach: ImportApproach, courses: Seq<SecretCourse>) -> nat
    decreases courses.len(),
{
    if courses.len() == 0 {
        0
    } else {
        let c = courses.last();
        imported_count(approach, courses.drop_last()) + if writes_entry(action_for(approach, c.0), c.1) {
            1nat
        } else {
            0nat
        }
    }
}

/// The tally of a whole import run, given each secret's course.
pub fn tally_import(approach: ImportApproach, courses: &Vec<SecretCourse>) -> (r: ImportResult)
    requires
        courses@.len() < u64::MAX,
    ensures
        r.imported == imported_count(approach, courses@),
        r.imported + r.skipped == courses@.len(),
{
    let mut result = ImportResult::new();
    let mut i: usize = 0;
    while i < courses.len()
        invariant
            i <= courses@.len(),
            courses@.len() < u64::MAX,
            result.imported == imported_count(approach, courses@.take(i as int)),
            result.imported + result.skipped == i,
        decreases courses@.len() - i,
    {
        let (exists, inserted) = courses[i];
        let action = import_action(approach, exists);
        result.count(action, inserted);
        assert(courses@.take(i + 1).drop_last() =~= courses@.take(i as int));
        i = i + 1;
    }
    assert(courses@.take(courses@.len() as int) =~= courses@);
    result
}

/// Under `All`, every secret of an import is written.
pub proof fn lemma_all_imports_everything(courses: Seq<SecretCourse>)
    ensures
        imported_count(ImportApproach::All, courses) == courses.len(),
    decreases courses.len(),
{
    if courses.len() > 0 {
        lemma_all_imports_everything(courses.drop_last());
    }
}

/// Under `MissingOnly`, a secret whose path was found to hold entries is
/// never written.
pub proof fn lemma_missing_only_skips_existing(courses: Seq<SecretCourse>)
    requires
        forall|i: int| 0 <= i < courses.len() ==> (#[trigger] courses[i]).0,
    ensures
        imported_count(ImportApproach::MissingOnly, courses) == 0,
    decreases courses.len(),
{
    if courses.len() > 0 {
        let d = courses.drop_last();
        assert forall|i: int| 0 <= i < d.len() implies (#[trigger] d[i]).0 by {
            assert(d[i] == courses[i]);
        }
        lemma_missing_only_skips_existing(d);
    }
}

/// How many of `courses` had a path found to hold entries.
pub open spec fn existing_count(courses: Seq<SecretCourse>) -> nat
    decreases courses.len(),
{
    if courses.len() == 0 {
        0
    } else {
        existing_count(courses.drop_last()) + if courses.last().0 {
            1nat
        } else {
            0nat
        }
    }
}

/// Under `MissingOnly`, when every guarded insert of a secret whose path
/// held no entries went through (nothing wrote the path meanwhile), exactly
/// the secrets whose paths already held entries are left alone: the import
/// writes the others, so the skipped count of its tally is the number of
/// paths that already held entries.
pub proof fn lemma_missing_only_skips_exactly_existing(courses: Seq<SecretCourse>)
    requires
        forall|i: int| 0 <= i < courses.len() && !(#[trigger] courses[i]).0 ==> courses[i].1,
    ensures
        existing_count(courses) <= courses.len(),
        imported_count(ImportApproach::MissingOnly, courses) == courses.len() - existing_count(courses),
    decreases courses.len(),
{
    if courses.len() > 0 {
        let d = courses.drop_last();
        assert forall|i: int| 0 <= i < d.len() && !(#[trigger] d[i]).0 implies d[i].1 by {
            assert(d[i] == courses[i]);
        }
        lemma_missing_only_skips_exactly_existing(d);
        assert(courses.last() == courses[courses.len() - 1]);
    }
}

} // verus!
