//! Remote paths, as text with `/` as separator.
use vstd::prelude::*;

verus! {

/// A path is absolute when it starts at the root.
pub open spec fn is_absolute(p: Seq<char>) -> bool {
    p.len() > 0 && p[0] == '/'
}

/// `base` extended by `p`, as `PathBuf::push` does it: an absolute `p`
/// replaces `base`; otherwise a separator goes between the two unless
/// `base` is empty or already ends with one.
pub open spec fn pushed(base: Seq<char>, p: Seq<char>) -> Seq<char> {
    if is_absolute(p) {
        p
    } else if base.len() == 0 || base.last() == '/' {
        base + p
    } else {
        base + seq!['/'] + p
    }
}

/// `target` when it is absolute, else `target` taken relative to `wrkdir`.
pub open spec fn absolutized(wrkdir: Seq<char>, target: Seq<char>) -> Seq<char> {
    if is_absolute(target) {
        target
    } else {
        pushed(wrkdir, target)
    }
}

fn starts_at_root(p: &str) -> (r: bool)
    ensures
        r == is_absolute(p@),
{
    let cs = crate::text::chars_of(p);
    cs.len() > 0 && cs[0] == '/'
}

/// Makes `target` absolute by taking it relative to `wrkdir`, unless it is
/// absolute already.
pub fn absolutize(wrkdir: &str, target: &str) -> (r: String)
    ensures
        r@ == absolutized(wrkdir@, target@),
{
    if starts_at_root(target) {
        target.to_owned()
    } else {
        let base = crate::text::chars_of(wrkdir);
        let mut p = wrkdir.to_owned();
        if base.len() > 0 && base[base.len() - 1] != '/' {
            p.push('/');
        }
        p.append(target);
        resolve(p.as_str())
    }
}

/// The path with `/` as its separator; on this platform it is already so.
pub fn resolve(p: &str) -> (r: String)
    ensures
        r@ == p@,
{
    p.to_owned()
}

} // verus!
