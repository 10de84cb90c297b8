//! An in-memory file overlay: file contents kept under normalised paths.
//!
//! Paths are read as bytes and split at `/`. Two paths name the same file
//! when they normalise to the same bytes.

use vstd::prelude::*;
use vstd::string::StringSliceAdditionalSpecFns;
use crate::table::{
    lemma_table_at, lemma_table_len, lemma_table_missing, lemma_table_push, lemma_table_remove,
    table,
};

verus! {

/// The byte `/`, which separates the components of a path.
pub const SEPARATOR: u8 = 0x2f;

/// The byte `.`.
pub const DOT: u8 = 0x2e;

/// The components of a path: what stands between its separators. A path
/// without a separator is one component; an empty path is one empty component.
pub open spec fn split(path: Seq<u8>) -> Seq<Seq<u8>>
    decreases path.len(),
{
    if path.len() == 0 {
        seq![Seq::<u8>::empty()]
    } else {
        let init = split(path.drop_last());
        if path.last() == SEPARATOR {
            init.push(Seq::<u8>::empty())
        } else {
            init.update(init.len() - 1, init.last().push(path.last()))
        }
    }
}

/// What one component does to the components resolved so far: an empty one
/// and `.` change nothing, `..` takes the last one away if there is one, and
/// any other is added.
pub open spec fn step(stack: Seq<Seq<u8>>, part: Seq<u8>) -> Seq<Seq<u8>> {
    if part.len() == 0 || part == seq![DOT] {
        stack
    } else if part == seq![DOT, DOT] {
        if stack.len() > 0 {
            stack.drop_last()
        } else {
            stack
        }
    } else {
        stack.push(part)
    }
}

/// The components that are left when each component has been applied in turn.
pub open spec fn resolve(parts: Seq<Seq<u8>>) -> Seq<Seq<u8>>
    decreases parts.len(),
{
    if parts.len() == 0 {
        Seq::empty()
    } else {
        step(resolve(parts.drop_last()), parts.last())
    }
}

/// The components written one after another with a separator between them.
pub open spec fn join(parts: Seq<Seq<u8>>) -> Seq<u8>
    decreases parts.len(),
{
    if parts.len() == 0 {
        Seq::empty()
    } else if parts.len() == 1 {
        parts[0]
    } else {
        join(parts.drop_last()) + seq![SEPARATOR] + parts.last()
    }
}

/// Whether a path starts at the root.
pub open spec fn is_absolute(path: Seq<u8>) -> bool {
    path.len() > 0 && path[0] == SEPARATOR
}

/// The separator for a path that starts at the root, nothing for another.
pub open spec fn root_of(path: Seq<u8>) -> Seq<u8> {
    if is_absolute(path) {
        seq![SEPARATOR]
    } else {
        Seq::empty()
    }
}

/// The normal form of a path: its root, if it has one, and its resolved
/// components with one separator between them.
pub open spec fn normalize(path: Seq<u8>) -> Seq<u8> {
    root_of(path) + join(resolve(split(path)))
}

/// The views of a sequence of byte vectors.
pub open spec fn views(parts: Seq<Vec<u8>>) -> Seq<Seq<u8>> {
    Seq::new(parts.len(), |i: int| parts[i]@)
}

proof fn lemma_split_nonempty(path: Seq<u8>)
    ensures
        split(path).len() >= 1,
    decreases path.len(),
{
    if path.len() > 0 {
        lemma_split_nonempty(path.drop_last());
    }
}

/// Applies one component to the components resolved so far.
fn apply_part(stack: &mut Vec<Vec<u8>>, part: Vec<u8>)
    ensures
        views(final(stack)@) == step(views(old(stack)@), part@),
{
    let n = part.len();
    if n == 0 || (n == 1 && part[0] == DOT) {
        assert(n == 1 && part@[0] == DOT ==> part@ =~= seq![DOT]);
    } else if n == 2 && part[0] == DOT && part[1] == DOT {
        assert(part@ =~= seq![DOT, DOT]);
        assert(part@ != seq![DOT]);
        if stack.len() > 0 {
            stack.pop();
            assert(views(stack@) =~= views(old(stack)@).drop_last());
        }
    } else {
        assert(part@ != seq![DOT]) by {
            if part@ == seq![DOT] {
                assert(part@.len() == 1 && part@[0] == DOT);
            }
        }
        assert(part@ != seq![DOT, DOT]) by {
            if part@ == seq![DOT, DOT] {
                assert(part@.len() == 2 && part@[0] == DOT && part@[1] == DOT);
            }
        }
        stack.push(part);
        assert(views(stack@) =~= views(old(stack)@).push(part@));
    }
}

/// The normal form of a path, as bytes.
pub fn normalize_path(path: &str) -> (res: Vec<u8>)
    ensures
        res@ == normalize(path.spec_bytes()),
{
    let bytes = path.as_bytes();
    let mut stack: Vec<Vec<u8>> = Vec::new();
    let mut cur: Vec<u8> = Vec::new();
    let mut i: usize = 0;
    assert(views(stack@) =~= resolve(split(bytes@.take(0)).drop_last()));
    while i < bytes.len()
        invariant
            i <= bytes.len(),
            split(bytes@.take(i as int)).len() >= 1,
            views(stack@) == resolve(split(bytes@.take(i as int)).drop_last()),
            cur@ == split(bytes@.take(i as int)).last(),
        decreases bytes.len() - i,
    {
        let b = bytes[i];
        let ghost before = bytes@.take(i as int);
        let ghost after = bytes@.take(i + 1);
        proof {
            assert(after.drop_last() =~= before);
            assert(after.last() == b);
            lemma_split_nonempty(after);
        }
        if b == SEPARATOR {
            assert(split(after).drop_last() =~= split(before));
            assert(split(before).drop_last().push(cur@) =~= split(before));
            apply_part(&mut stack, cur);
            cur = Vec::new();
        } else {
            assert(split(after).drop_last() =~= split(before).drop_last());
            cur.push(b);
        }
        i += 1;
    }
    let ghost parts = split(bytes@);
    proof {
        assert(bytes@.take(i as int) =~= bytes@);
        assert(parts.drop_last().push(cur@) =~= parts);
    }
    apply_part(&mut stack, cur);
    let mut out: Vec<u8> = Vec::new();
    if bytes.len() > 0 && bytes[0] == SEPARATOR {
        out.push(SEPARATOR);
    }
    assert(out@ =~= root_of(bytes@));
    let mut k: usize = 0;
    assert(views(stack@).take(0) =~= Seq::<Seq<u8>>::empty());
    while k < stack.len()
        invariant
            k <= stack.len(),
            out@ == root_of(bytes@) + join(views(stack@).take(k as int)),
        decreases stack.len() - k,
    {
        let ghost done = views(stack@).take(k as int);
        let ghost next = views(stack@).take(k + 1);
        proof {
            assert(next.drop_last() =~= done);
            assert(next.last() == stack@[k as int]@);
        }
        if k > 0 {
            out.push(SEPARATOR);
        }
        out.extend_from_slice(stack[k].as_slice());
        proof {
            if k == 0 {
                assert(join(next) =~= stack@[0]@);
                assert(join(done) =~= Seq::<u8>::empty());
            }
            assert(out@ =~= root_of(bytes@) + join(next));
        }
        k += 1;
    }
    assert(views(stack@).take(k as int) =~= views(stack@));
    out
}

/// The paths under which a sequence of entries keeps its contents.
pub open spec fn keys(entries: Seq<(Vec<u8>, &'static [u8])>) -> Seq<Seq<u8>> {
    Seq::new(entries.len(), |i: int| entries[i].0@)
}

/// The contents that a sequence of entries keeps.
pub open spec fn contents(entries: Seq<(Vec<u8>, &'static [u8])>) -> Seq<Seq<u8>> {
    Seq::new(entries.len(), |i: int| entries[i].1@)
}

/// The files that a sequence of entries holds: contents by normalised path.
pub open spec fn files_of(entries: Seq<(Vec<u8>, &'static [u8])>) -> Map<Seq<u8>, Seq<u8>> {
    table(keys(entries), contents(entries))
}

/// Whether two byte strings are equal.
fn bytes_equal(a: &[u8], b: &[u8]) -> (res: bool)
    ensures
        res == (a@ == b@),
{
    if a.len() != b.len() {
        return false;
    }
    let mut i: usize = 0;
    while i < a.len()
        invariant
            a.len() == b.len(),
            i <= a.len(),
            forall|k: int| 0 <= k < i ==> a@[k] == b@[k],
        decreases a.len() - i,
    {
        if a[i] != b[i] {
            return false;
        }
        i += 1;
    }
    assert(a@ =~= b@);
    true
}

/// An in-memory overlay of files, each kept under the normal form of its path.
#[derive(Debug, Default)]
pub struct VirtualFileSystem {
    files: Vec<(Vec<u8>, &'static [u8])>,
}

impl View for VirtualFileSystem {
    type V = Map<Seq<u8>, Seq<u8>>;

    /// The files held: contents by normalised path.
    closed spec fn view(&self) -> Map<Seq<u8>, Seq<u8>> {
        files_of(self.files@)
    }
}

impl VirtualFileSystem {
    #[verifier::type_invariant]
    spec fn distinct_paths(self) -> bool {
        keys(self.files@).no_duplicates()
    }

    /// An overlay without files.
    pub fn new() -> (vfs: Self)
        ensures
            vfs@ == Map::<Seq<u8>, Seq<u8>>::empty(),
    {
        let vfs = VirtualFileSystem { files: Vec::new() };
        assert(vfs@ =~= Map::<Seq<u8>, Seq<u8>>::empty());
        vfs
    }

    /// The place of the entry kept under `key`, if there is one.
    fn find(&self, key: &Vec<u8>) -> (res: Option<usize>)
        ensures
            match res {
                Some(i) => i < self.files@.len() && self.files@[i as int].0@ == key@
                    && self@.contains_key(key@) && self@[key@] == self.files@[i as int].1@,
                None => !self@.contains_key(key@),
            },
    {
        proof {
            use_type_invariant(self);
        }
        let mut i: usize = 0;
        while i < self.files.len()
            invariant
                keys(self.files@).no_duplicates(),
                i <= self.files@.len(),
                forall|k: int| 0 <= k < i ==> self.files@[k].0@ != key@,
            decreases self.files@.len() - i,
        {
            if bytes_equal(self.files[i].0.as_slice(), key.as_slice()) {
                proof {
                    assert(keys(self.files@)[i as int] == key@);
                    lemma_table_at(keys(self.files@), contents(self.files@), i as int);
                }
                return Some(i);
            }
            i += 1;
        }
        proof {
            lemma_table_missing(keys(self.files@), contents(self.files@), key@);
        }
        None
    }

    /// The number of files held.
    pub fn len(&self) -> (n: usize)
        ensures
            self@.dom().finite(),
            n == self@.dom().len(),
    {
        proof {
            use_type_invariant(self);
            lemma_table_len(keys(self.files@), contents(self.files@));
        }
        self.files.len()
    }

    /// The contents of the file that `path` names, if the overlay holds it.
    pub fn read(&mut self, path: &str) -> (res: Option<Vec<u8>>)
        ensures
            final(self)@ == old(self)@,
            match res {
                Some(contents) => old(self)@.contains_key(normalize(path.spec_bytes()))
                    && contents@ == old(self)@[normalize(path.spec_bytes())],
                None => !old(self)@.contains_key(normalize(path.spec_bytes())),
            },
    {
        let key = normalize_path(path);
        match self.find(&key) {
            Some(i) => Some(vstd::slice::slice_to_vec(self.files[i].1)),
            None => None,
        }
    }

    /// Whether the overlay holds the file that `path` names.
    pub fn file_exists(&self, path: &str) -> (res: bool)
        ensures
            res == self@.contains_key(normalize(path.spec_bytes())),
    {
        let key = normalize_path(path);
        self.find(&key).is_some()
    }

    /// Takes the entry at place `i` out.
    fn detach(files: &mut Vec<(Vec<u8>, &'static [u8])>, i: usize)
        requires
            keys(old(files)@).no_duplicates(),
            i < old(files)@.len(),
        ensures
            keys(final(files)@).no_duplicates(),
            files_of(final(files)@) == files_of(old(files)@).remove(old(files)@[i as int].0@),
    {
        files.remove(i);
        proof {
            assert(keys(files@) =~= keys(old(files)@).remove(i as int));
            assert(contents(files@) =~= contents(old(files)@).remove(i as int));
            lemma_table_remove(keys(old(files)@), contents(old(files)@), i as int);
        }
    }

    /// Keeps `contents` as the file that `path` names, in place of what was
    /// kept under that name.
    pub fn write(&mut self, path: &str, contents: &'static [u8])
        ensures
            final(self)@ == old(self)@.insert(normalize(path.spec_bytes()), contents@),
    {
        let key = normalize_path(path);
        proof {
            use_type_invariant(&*self);
        }
        let ghost before = self.files@;
        let found = self.find(&key);
        let mut files: Vec<(Vec<u8>, &'static [u8])> = Vec::new();
        core::mem::swap(&mut self.files, &mut files);
        match found {
            Some(i) => {
                Self::detach(&mut files, i);
            },
            None => {},
        }
        let ghost middle = files@;
        proof {
            assert(!files_of(middle).contains_key(key@));
            assert(!keys(middle).contains(key@));
            lemma_table_push(keys(middle), self::contents(middle), key@, contents@);
        }
        files.push((key, contents));
        proof {
            assert(keys(files@) =~= keys(middle).push(key@));
            assert(self::contents(files@) =~= self::contents(middle).push(contents@));
            assert(files_of(files@) =~= files_of(before).insert(key@, contents@));
        }
        self.files = files;
    }

    /// Drops the file that `path` names, if the overlay holds it.
    pub fn remove(&mut self, path: &str)
        ensures
            final(self)@ == old(self)@.remove(normalize(path.spec_bytes())),
    {
        let key = normalize_path(path);
        proof {
            use_type_invariant(&*self);
        }
        match self.find(&key) {
            Some(i) => {
                let mut files: Vec<(Vec<u8>, &'static [u8])> = Vec::new();
                core::mem::swap(&mut self.files, &mut files);
                Self::detach(&mut files, i);
                self.files = files;
            },
            None => {
                assert(self@ =~= old(self)@.remove(key@));
            },
        }
    }
}

/// Whether a component holds no separator.
pub open spec fn is_plain(part: Seq<u8>) -> bool {
    forall|i: int| 0 <= i < part.len() ==> part[i] != SEPARATOR
}

/// Whether a component is one that a normal form keeps: not empty, not
/// `.`, not `..`, and without a separator.
pub open spec fn is_kept(part: Seq<u8>) -> bool {
    part.len() > 0 && part != seq![DOT] && part != seq![DOT, DOT] && is_plain(part)
}

proof fn lemma_split_plain(path: Seq<u8>)
    ensures
        forall|i: int| 0 <= i < split(path).len() ==> is_plain(#[trigger] split(path)[i]),
    decreases path.len(),
{
    if path.len() > 0 {
        lemma_split_plain(path.drop_last());
        lemma_split_nonempty(path.drop_last());
    }
}

proof fn lemma_split_append(a: Seq<u8>, b: Seq<u8>)
    requires
        is_plain(b),
    ensures
        split(a + b) == split(a).update(split(a).len() - 1, split(a).last() + b),
    decreases b.len(),
{
    lemma_split_nonempty(a);
    if b.len() == 0 {
        assert(a + b =~= a);
        assert(split(a).last() + b =~= split(a).last());
        assert(split(a).update(split(a).len() - 1, split(a).last()) =~= split(a));
    } else {
        let shorter = b.drop_last();
        lemma_split_append(a, shorter);
        assert((a + b).drop_last() =~= a + shorter);
        assert((a + b).last() == b.last());
        assert((split(a).last() + shorter).push(b.last()) =~= split(a).last() + b);
        assert(split(a + b) =~= split(a).update(split(a).len() - 1, split(a).last() + b));
    }
}

proof fn lemma_split_join(parts: Seq<Seq<u8>>)
    requires
        parts.len() >= 1,
        forall|i: int| 0 <= i < parts.len() ==> is_plain(#[trigger] parts[i]),
    ensures
        split(join(parts)) == parts,
    decreases parts.len(),
{
    let none = Seq::<u8>::empty();
    if parts.len() == 1 {
        lemma_split_append(none, parts[0]);
        assert(none + parts[0] =~= parts[0]);
        assert(split(none) =~= seq![none]);
        assert(split(parts[0]) =~= parts);
    } else {
        let init = parts.drop_last();
        assert forall|i: int| 0 <= i < init.len() implies is_plain(#[trigger] init[i]) by {
            assert(init[i] == parts[i]);
        }
        lemma_split_join(init);
        let head = join(init) + seq![SEPARATOR];
        assert(head.drop_last() =~= join(init));
        assert(split(head) =~= init.push(none));
        lemma_split_append(head, parts.last());
        assert(none + parts.last() =~= parts.last());
        assert(split(join(parts)) =~= parts);
    }
}

proof fn lemma_resolve_kept(parts: Seq<Seq<u8>>)
    requires
        forall|i: int| 0 <= i < parts.len() ==> is_plain(#[trigger] parts[i]),
    ensures
        forall|i: int| 0 <= i < resolve(parts).len() ==> is_kept(#[trigger] resolve(parts)[i]),
    decreases parts.len(),
{
    if parts.len() > 0 {
        let init = parts.drop_last();
        assert forall|i: int| 0 <= i < init.len() implies is_plain(#[trigger] init[i]) by {
            assert(init[i] == parts[i]);
        }
        lemma_resolve_kept(init);
        assert(is_plain(parts.last()));
        let before = resolve(init);
        let after = resolve(parts);
        assert(after == step(before, parts.last()));
        assert forall|i: int| 0 <= i < after.len() implies is_kept(#[trigger] after[i]) by {
            if i < before.len() {
                assert(after[i] == before[i]);
            }
        }
    }
}

proof fn lemma_resolve_of_kept(parts: Seq<Seq<u8>>)
    requires
        forall|i: int| 0 <= i < parts.len() ==> is_kept(#[trigger] parts[i]),
    ensures
        resolve(parts) == parts,
    decreases parts.len(),
{
    if parts.len() > 0 {
        let init = parts.drop_last();
        assert forall|i: int| 0 <= i < init.len() implies is_kept(#[trigger] init[i]) by {
            assert(init[i] == parts[i]);
        }
        lemma_resolve_of_kept(init);
        assert(is_kept(parts.last()));
        assert(init.push(parts.last()) =~= parts);
    } else {
        assert(resolve(parts) =~= parts);
    }
}

proof fn lemma_resolve_after_empty(parts: Seq<Seq<u8>>)
    ensures
        resolve(seq![Seq::<u8>::empty()] + parts) == resolve(parts),
    decreases parts.len(),
{
    let lead = seq![Seq::<u8>::empty()];
    if parts.len() == 0 {
        assert(lead + parts =~= lead);
        assert(lead.drop_last() =~= Seq::<Seq<u8>>::empty());
        assert(resolve(lead) == step(resolve(lead.drop_last()), lead.last()));
        assert(resolve(lead) =~= resolve(parts));
    } else {
        lemma_resolve_after_empty(parts.drop_last());
        assert((lead + parts).drop_last() =~= lead + parts.drop_last());
        assert((lead + parts).last() == parts.last());
        assert(resolve(lead + parts) == step(
            resolve((lead + parts).drop_last()),
            (lead + parts).last(),
        ));
    }
}

proof fn lemma_join_after_empty(parts: Seq<Seq<u8>>)
    requires
        parts.len() >= 1,
    ensures
        join(seq![Seq::<u8>::empty()] + parts) == seq![SEPARATOR] + join(parts),
    decreases parts.len(),
{
    let none = Seq::<u8>::empty();
    let lead = seq![none];
    assert((lead + parts).drop_last() =~= lead + parts.drop_last());
    if parts.len() == 1 {
        assert(lead + parts.drop_last() =~= lead);
        assert(join(lead) == none);
        assert(join(lead + parts) =~= seq![SEPARATOR] + join(parts));
    } else {
        lemma_join_after_empty(parts.drop_last());
        assert(join(lead + parts) =~= seq![SEPARATOR] + join(parts));
    }
}

proof fn lemma_join_starts(parts: Seq<Seq<u8>>)
    requires
        parts.len() >= 1,
        parts[0].len() > 0,
    ensures
        join(parts).len() > 0,
        join(parts)[0] == parts[0][0],
    decreases parts.len(),
{
    if parts.len() > 1 {
        lemma_join_starts(parts.drop_last());
    }
}

/// The normal form of a path is its own normal form: normalising twice
/// gives what normalising once gives.
pub proof fn lemma_normalize_idempotent(path: Seq<u8>)
    ensures
        normalize(normalize(path)) == normalize(path),
{
    let none = Seq::<u8>::empty();
    let kept = resolve(split(path));
    let normal = normalize(path);
    lemma_split_plain(path);
    lemma_resolve_kept(split(path));
    lemma_resolve_of_kept(kept);
    assert forall|i: int| 0 <= i < kept.len() implies is_plain(#[trigger] kept[i]) by {
        assert(is_kept(kept[i]));
    }
    if is_absolute(path) {
        assert(normal[0] == SEPARATOR);
        if kept.len() == 0 {
            assert(normal =~= seq![SEPARATOR]);
            assert(normal.drop_last() =~= none);
            assert(normal.last() == SEPARATOR);
            assert(split(none) =~= seq![none]);
            assert(split(normal) == split(normal.drop_last()).push(none));
            assert(split(normal) =~= seq![none, none]);
            assert(seq![none, none].drop_last() =~= seq![none]);
            assert(seq![none].drop_last() =~= Seq::<Seq<u8>>::empty());
            assert(resolve(seq![none]) =~= Seq::<Seq<u8>>::empty());
            assert(resolve(split(normal)) =~= kept);
        } else {
            let led = seq![none] + kept;
            lemma_join_after_empty(kept);
            assert(normal =~= join(led));
            assert forall|i: int| 0 <= i < led.len() implies is_plain(#[trigger] led[i]) by {
                if i > 0 {
                    assert(led[i] == kept[i - 1]);
                }
            }
            lemma_split_join(led);
            lemma_resolve_after_empty(kept);
        }
        assert(normalize(normal) =~= normal);
    } else {
        if kept.len() == 0 {
            assert(normal =~= none);
            assert(split(normal) =~= seq![none]);
            assert(seq![none].drop_last() =~= Seq::<Seq<u8>>::empty());
            assert(resolve(split(normal)) =~= kept);
        } else {
            assert(normal =~= join(kept));
            lemma_split_join(kept);
            assert(is_kept(kept[0]));
            lemma_join_starts(kept);
            assert(!is_absolute(normal));
        }
        assert(normalize(normal) =~= normal);
    }
}

/// A file written under one path is read back under every path with the
/// same normal form, and under no other.
pub proof fn lemma_write_then_read(
    files: Map<Seq<u8>, Seq<u8>>,
    written: Seq<u8>,
    read: Seq<u8>,
    contents: Seq<u8>,
)
    ensures
        normalize(read) == normalize(written) ==> files.insert(
            normalize(written),
            contents,
        ).contains_key(normalize(read)) && files.insert(normalize(written), contents)[normalize(
            read,
        )] == contents,
        normalize(read) != normalize(written) ==> (files.insert(
            normalize(written),
            contents,
        ).contains_key(normalize(read)) <==> files.contains_key(normalize(read))),
{
}

} // verus!
