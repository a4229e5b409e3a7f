use vstd::prelude::*;
use vstd::utf8::encode_utf8;

verus! {

/// The path separator, `/`.
pub const SEPARATOR: u8 = 47;

/// The byte `.`.
pub const DOT: u8 = 46;

/// Whether a component between separators names something: it is neither
/// empty (a repeated or trailing separator) nor `.` (the directory itself).
pub open spec fn is_named(c: Seq<u8>) -> bool {
    c.len() > 0 && c != seq![DOT]
}

/// `done` with `c` appended when `c` names something.
pub open spec fn keep_named(done: Seq<Seq<u8>>, c: Seq<u8>) -> Seq<Seq<u8>> {
    if is_named(c) {
        done.push(c)
    } else {
        done
    }
}

/// Reads `s` left to right: the named components closed by a separator so
/// far, and the component still open after the last separator.
pub open spec fn scan_components(s: Seq<u8>) -> (Seq<Seq<u8>>, Seq<u8>)
    decreases s.len(),
{
    if s.len() == 0 {
        (Seq::empty(), Seq::empty())
    } else {
        let (done, open) = scan_components(s.drop_last());
        if s.last() == SEPARATOR {
            (keep_named(done, open), Seq::empty())
        } else {
            (done, open.push(s.last()))
        }
    }
}

/// The named components of a path's bytes, in order: empty and `.`
/// components are dropped.
pub open spec fn path_components(s: Seq<u8>) -> Seq<Seq<u8>> {
    keep_named(scan_components(s).0, scan_components(s).1)
}

/// A path is absolute when it starts with a separator.
pub open spec fn is_absolute(p: Seq<char>) -> bool {
    encode_utf8(p).len() > 0 && encode_utf8(p)[0] == SEPARATOR
}

/// What two paths are compared by: whether they are absolute, and the named
/// components of their UTF-8 bytes. Repeated separators, a trailing
/// separator and `.` components make no difference.
pub open spec fn path_key(p: Seq<char>) -> (bool, Seq<Seq<u8>>) {
    (is_absolute(p), path_components(encode_utf8(p)))
}

/// Two paths name the same directory when their keys are equal.
pub open spec fn same_path(a: Seq<char>, b: Seq<char>) -> bool {
    path_key(a) == path_key(b)
}

/// The byte strings that `v` holds.
pub open spec fn byte_strings(v: Seq<Vec<u8>>) -> Seq<Seq<u8>> {
    v.map_values(|b: Vec<u8>| b@)
}

/// The normal form of a path, as `path_key` describes it.
pub struct PathKey {
    pub absolute: bool,
    pub components: Vec<Vec<u8>>,
}

impl View for PathKey {
    type V = (bool, Seq<Seq<u8>>);

    open spec fn view(&self) -> (bool, Seq<Seq<u8>>) {
        (self.absolute, byte_strings(self.components@))
    }
}

/// Whether `c` names something.
fn component_is_named(c: &Vec<u8>) -> (r: bool)
    ensures
        r == is_named(c@),
{
    if c.len() == 0 {
        return false;
    }
    let dot_only = c.len() == 1 && c[0] == DOT;
    if dot_only {
        assert(c@ =~= seq![DOT]);
    } else {
        assert(c@ != seq![DOT]) by {
            if c@ == seq![DOT] {
                assert(c@[0] == DOT);
            }
        }
    }
    !dot_only
}

/// Appends `c` to `done` when it names something.
fn push_named(done: &mut Vec<Vec<u8>>, c: Vec<u8>)
    ensures
        byte_strings(final(done)@) == keep_named(byte_strings(old(done)@), c@),
{
    if component_is_named(&c) {
        let ghost before = done@;
        done.push(c);
        assert(byte_strings(done@) =~= byte_strings(before).push(c@));
    }
}

/// Computes `path_key(p@)`.
pub fn normalize_path(p: &str) -> (r: PathKey)
    ensures
        r@ == path_key(p@),
{
    let b = p.as_bytes();
    let mut done: Vec<Vec<u8>> = Vec::new();
    let mut open: Vec<u8> = Vec::new();
    let mut i: usize = 0;
    assert(byte_strings(done@) =~= Seq::<Seq<u8>>::empty());
    while i < b.len()
        invariant
            i <= b@.len(),
            b@ == encode_utf8(p@),
            byte_strings(done@) == scan_components(b@.take(i as int)).0,
            open@ == scan_components(b@.take(i as int)).1,
        decreases b@.len() - i,
    {
        let c = b[i];
        assert(b@.take(i + 1).drop_last() =~= b@.take(i as int));
        assert(b@.take(i + 1).last() == c);
        if c == SEPARATOR {
            let closed = open;
            open = Vec::new();
            push_named(&mut done, closed);
        } else {
            open.push(c);
        }
        i += 1;
    }
    assert(b@.take(i as int) =~= b@);
    push_named(&mut done, open);
    PathKey { absolute: path_is_absolute(p), components: done }
}

/// Whether `p` starts with a separator.
pub fn path_is_absolute(p: &str) -> (r: bool)
    ensures
        r == is_absolute(p@),
{
    let b = p.as_bytes();
    b.len() > 0 && b[0] == SEPARATOR
}

/// Whether two byte strings are equal.
fn bytes_equal(a: &Vec<u8>, b: &Vec<u8>) -> (r: bool)
    ensures
        r == (a@ == b@),
{
    if a.len() != b.len() {
        return false;
    }
    let mut i: usize = 0;
    while i < a.len()
        invariant
            i <= a@.len(),
            a@.len() == b@.len(),
            forall|k: int| 0 <= k < i ==> a@[k] == b@[k],
        decreases a@.len() - i,
    {
        if a[i] != b[i] {
            return false;
        }
        i += 1;
    }
    assert(a@ =~= b@);
    true
}

/// Whether two normal forms are equal.
pub fn keys_equal(a: &PathKey, b: &PathKey) -> (r: bool)
    ensures
        r == (a@ == b@),
{
    if a.absolute != b.absolute || a.components.len() != b.components.len() {
        assert(a@.1.len() == a.components@.len());
        return false;
    }
    let mut i: usize = 0;
    while i < a.components.len()
        invariant
            i <= a.components@.len(),
            a.components@.len() == b.components@.len(),
            forall|k: int| 0 <= k < i ==> a.components@[k]@ == b.components@[k]@,
        decreases a.components@.len() - i,
    {
        if !bytes_equal(&a.components[i], &b.components[i]) {
            assert(a@.1[i as int] != b@.1[i as int]);
            return false;
        }
        i += 1;
    }
    assert(a@.1 =~= b@.1);
    true
}

/// Whether `dir` names one of `roots`, after normalization.
pub fn is_listed_dir(dir: &str, roots: &Vec<String>) -> (r: bool)
    ensures
        r == exists|i: int| 0 <= i < roots@.len() && same_path(#[trigger] roots@[i]@, dir@),
{
    let key = normalize_path(dir);
    let mut i: usize = 0;
    while i < roots.len()
        invariant
            i <= roots@.len(),
            key@ == path_key(dir@),
            forall|k: int| 0 <= k < i ==> !same_path(#[trigger] roots@[k]@, dir@),
        decreases roots@.len() - i,
    {
        let root_key = normalize_path(roots[i].as_str());
        if keys_equal(&root_key, &key) {
            return true;
        }
        i += 1;
    }
    false
}

} // verus!
