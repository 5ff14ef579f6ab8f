//! The guest path sanitizer: the filesystem trust boundary.
//!
//! A guest names files by paths relative to the configured plugins root.
//! The rules, in order: the raw path must not be absolute and must contain
//! no parent-directory segment; it is then joined under the root and
//! resolved by the filesystem to a canonical absolute path (the host shell
//! performs that step, since it walks the disk and follows symlinks); the
//! resolved path must still lie under the canonical root. Paths are modeled
//! as character sequences with `/` separating segments.

use vstd::prelude::*;
use crate::wire::string_push;

verus! {

/// A parent-directory segment `..` occupies positions `i` and `i + 1`:
/// bounded by the string's ends or by separators, and spelled `..`.
pub open spec fn dotdot_at(s: Seq<char>, i: int) -> bool {
    &&& 0 <= i
    &&& i + 2 <= s.len()
    &&& (i == 0 || s[i - 1] == '/')
    &&& (i + 2 == s.len() || s[i + 2] == '/')
    &&& s[i] == '.'
    &&& s[i + 1] == '.'
}

pub open spec fn has_parent_segment(s: Seq<char>) -> bool {
    exists|i: int| #[trigger] dotdot_at(s, i)
}

/// The first rule of the trust boundary: relative, and no `..` segment.
pub open spec fn guest_path_ok(s: Seq<char>) -> bool {
    &&& (s.len() == 0 || s[0] != '/')
    &&& !has_parent_segment(s)
}

/// Checks the raw guest path: accepts exactly the relative paths without a
/// parent-directory segment.
pub fn check_guest_path(p: &str) -> (r: bool)
    ensures
        r == guest_path_ok(p@),
{
    let n = p.unicode_len();
    if n > 0 {
        if p.get_char(0) == '/' {
            return false;
        }
    }
    let mut pos: usize = 0;
    let mut st: usize = 0;
    while pos < n
        invariant
            st <= pos <= n,
            n == p@.len(),
            st == 0 || p@[st as int - 1] == '/',
            forall|m: int| st <= m < pos ==> p@[m] != '/',
            forall|i: int| i + 2 < pos ==> !dotdot_at(p@, i),
        decreases n - pos,
    {
        let c = p.get_char(pos);
        if c == '/' {
            if pos - st == 2 {
                if p.get_char(st) == '.' && p.get_char(st + 1) == '.' {
                    proof {
                        assert(dotdot_at(p@, st as int));
                    }
                    return false;
                }
            }
            proof {
                assert forall|i: int| i + 2 == pos as int implies !dotdot_at(p@, i) by {
                    if dotdot_at(p@, i) {
                        if i > st {
                            assert(p@[i - 1] == '/');
                        } else if i < st {
                            assert(st as int <= i + 2);
                            assert(p@[st as int - 1] == '/');
                            assert(i <= st as int - 1 <= i + 1);
                        } else {
                            assert(p@[st as int] == '.' && p@[st as int + 1] == '.');
                        }
                    }
                }
            }
            st = pos + 1;
        } else {
            proof {
                assert forall|i: int| i + 2 == pos as int implies !dotdot_at(p@, i) by {
                    if dotdot_at(p@, i) {
                        assert(i + 2 < p@.len() && p@[i + 2] == '/');
                    }
                }
            }
        }
        pos = pos + 1;
    }
    if n - st == 2 {
        if p.get_char(st) == '.' && p.get_char(st + 1) == '.' {
            proof {
                assert(dotdot_at(p@, st as int));
            }
            return false;
        }
    }
    proof {
        assert forall|i: int| !#[trigger] dotdot_at(p@, i) by {
            if dotdot_at(p@, i) {
                assert(i + 2 <= n);
                if i + 2 == n {
                    if i > st {
                        assert(p@[i - 1] == '/');
                    } else if i < st {
                        assert(st as int <= i + 2);
                        assert(p@[st as int - 1] == '/');
                        assert(i <= st as int - 1 <= i + 1);
                    } else {
                        assert(n - st == 2);
                        assert(p@[st as int] == '.' && p@[st as int + 1] == '.');
                    }
                }
            }
        }
    }
    true
}

/// The joined path `base/rel`, as the host's path type writes it.
pub open spec fn spec_join(base: Seq<char>, rel: Seq<char>) -> Seq<char> {
    if base.len() == 0 {
        rel
    } else if base.last() == '/' {
        base + rel
    } else {
        base + seq!['/'] + rel
    }
}

/// Joins a relative guest path under the base directory.
pub fn join_path(base: &str, rel: &str) -> (r: String)
    ensures
        r@ == spec_join(base@, rel@),
{
    let mut out = String::new();
    out.append(base);
    if base.unicode_len() > 0 {
        if base.get_char(base.unicode_len() - 1) != '/' {
            string_push(&mut out, '/');
        }
    }
    out.append(rel);
    proof {
        if base@.len() == 0 {
            assert(out@ =~= rel@);
        } else if base@.last() == '/' {
            assert(out@ =~= base@ + rel@);
        } else {
            assert(out@ =~= base@ + seq!['/'] + rel@);
        }
    }
    out
}

/// Whether `canon` lies under `root`, by whole segments: equal to the root,
/// or the root followed by a separator.
pub open spec fn spec_under_root(canon: Seq<char>, root: Seq<char>) -> bool {
    &&& canon.len() >= root.len()
    &&& canon.take(root.len() as int) == root
    &&& (canon.len() == root.len() || root.len() == 0 || root.last() == '/' || canon[root.len() as int]
        == '/')
}

/// Checks the prefix rule on the resolved path.
pub fn is_under_root(canon: &str, root: &str) -> (r: bool)
    ensures
        r == spec_under_root(canon@, root@),
{
    let nc = canon.unicode_len();
    let nr = root.unicode_len();
    if nc < nr {
        proof {
            assert(!spec_under_root(canon@, root@));
        }
        return false;
    }
    let mut j: usize = 0;
    while j < nr
        invariant
            j <= nr,
            nr == root@.len(),
            nc == canon@.len(),
            nr <= nc,
            forall|k: int| 0 <= k < j ==> canon@[k] == root@[k],
        decreases nr - j,
    {
        if canon.get_char(j) != root.get_char(j) {
            proof {
                assert(canon@.take(nr as int)[j as int] != root@[j as int]);
            }
            return false;
        }
        j = j + 1;
    }
    proof {
        assert(canon@.take(nr as int) =~= root@);
    }
    if nc == nr {
        return true;
    }
    if nr == 0 {
        return true;
    }
    if root.get_char(nr - 1) == '/' {
        return true;
    }
    canon.get_char(nr) == '/'
}

/// The filesystem resolution step, applied to what the host's resolver
/// returned for the joined path: accepts exactly a resolved path that lies
/// under the canonical root.
pub fn sanitize_resolved(canonical: Option<String>, root: &str) -> (r: Option<String>)
    ensures
        r matches Some(q) ==> (canonical matches Some(c) && c@ == q@ && spec_under_root(
            q@,
            root@,
        )),
        r is None ==> (canonical matches Some(c) ==> !spec_under_root(c@, root@)),
{
    match canonical {
        Some(c) => {
            if is_under_root(c.as_str(), root) {
                Some(c)
            } else {
                None
            }
        },
        None => None,
    }
}

} // verus!
