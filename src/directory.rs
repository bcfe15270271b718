//! The directory source: which file names it takes, and the queue of files that wait
//! to be read, one per tick.
use vstd::prelude::*;
use crate::text::str_eq;

verus! {

/// Whether `t` from position `i` on matches `p` from position `j` on, where `*` in the
/// pattern matches any run of characters, possibly empty, and every other character
/// matches itself.
pub open spec fn glob_from(t: Seq<char>, p: Seq<char>, i: int, j: int) -> bool
    decreases p.len() - j, t.len() - i,
{
    if i < 0 || j < 0 || i > t.len() || j > p.len() {
        false
    } else if j == p.len() {
        i == t.len()
    } else if p[j] == '*' {
        glob_from(t, p, i, j + 1) || (i < t.len() && glob_from(t, p, i + 1, j))
    } else {
        i < t.len() && t[i] == p[j] && glob_from(t, p, i + 1, j + 1)
    }
}

/// Whether the whole of `t` matches the whole of pattern `p`.
pub open spec fn glob(t: Seq<char>, p: Seq<char>) -> bool {
    glob_from(t, p, 0, 0)
}

fn chars_of(s: &str) -> (r: Vec<char>)
    ensures
        r@ == s@,
{
    let n = s.unicode_len();
    let mut out: Vec<char> = Vec::new();
    let mut i: usize = 0;
    while i < n
        invariant
            n == s@.len(),
            i <= n,
            out@ == s@.subrange(0, i as int),
        decreases n - i,
    {
        out.push(s.get_char(i));
        proof {
            assert(out@ =~= s@.subrange(0, i as int + 1));
        }
        i = i + 1;
    }
    proof {
        assert(s@.subrange(0, n as int) =~= s@);
    }
    out
}

/// Matches a file name against a pattern in which `*` stands for any run of characters
/// (several are allowed) and every other character for itself; case-sensitive.
pub fn simple_pattern_match(text: &str, pattern: &str) -> (r: bool)
    ensures
        r == glob(text@, pattern@),
{
    let t = chars_of(text);
    let p = chars_of(pattern);
    let n = t.len();
    let m = p.len();
    // `next` holds the results for pattern position j + 1, one for each text position.
    let mut next: Vec<bool> = Vec::new();
    let mut i: usize = 0;
    while i < n
        invariant
            n == t@.len(),
            m == p@.len(),
            i <= n,
            next@.len() == i,
            forall|x: int| 0 <= x < i ==> next@[x] == glob_from(t@, p@, x, m as int),
        decreases n - i,
    {
        next.push(false);
        i = i + 1;
    }
    next.push(true);
    let n1 = next.len();
    let mut j: usize = m;
    while j > 0
        invariant
            n == t@.len(),
            m == p@.len(),
            j <= m,
            n1 == n + 1,
            next@.len() == n + 1,
            forall|x: int| 0 <= x <= n ==> next@[x] == glob_from(t@, p@, x, j as int),
        decreases j,
    {
        let jj = j - 1;
        let mut cur: Vec<bool> = Vec::new();
        let mut k: usize = 0;
        while k < n1
            invariant
                next@.len() == n + 1,
                n1 == n + 1,
                k <= n1,
                cur@.len() == k,
            decreases n1 - k,
        {
            cur.push(false);
            k = k + 1;
        }
        let mut x: usize = n1;
        while x > 0
            invariant
                n == t@.len(),
                m == p@.len(),
                jj < m,
                n1 == n + 1,
                next@.len() == n + 1,
                cur@.len() == n + 1,
                x <= n + 1,
                forall|y: int| 0 <= y <= n ==> next@[y] == glob_from(t@, p@, y, jj + 1),
                forall|y: int| x <= y <= n ==> cur@[y] == glob_from(t@, p@, y, jj as int),
            decreases x,
        {
            let xi = x - 1;
            let v = if p[jj] == '*' {
                next[xi] || (xi < n && cur[xi + 1])
            } else {
                xi < n && t[xi] == p[jj] && next[xi + 1]
            };
            cur.set(xi, v);
            x = xi;
        }
        next = cur;
        j = jj;
    }
    next[0]
}

/// Files found in the watched directory that wait to be read, first found first; each
/// path at most once.
#[derive(Debug)]
pub struct PendingFiles {
    queue: Vec<String>,
}

/// No path occurs twice in `s`.
pub open spec fn distinct_paths(s: Seq<Seq<char>>) -> bool {
    forall|a: int, b: int| 0 <= a < b < s.len() ==> s[a] != s[b]
}

impl View for PendingFiles {
    type V = Seq<Seq<char>>;

    closed spec fn view(&self) -> Seq<Seq<char>> {
        self.queue@.map_values(|s: String| s@)
    }
}

impl PendingFiles {
    /// An empty queue.
    pub fn new() -> (r: Self)
        ensures
            r@ == Seq::<Seq<char>>::empty(),
            distinct_paths(r@),
    {
        let r = PendingFiles { queue: Vec::new() };
        proof {
            assert(r.queue@.map_values(|s: String| s@) =~= Seq::<Seq<char>>::empty());
        }
        r
    }

    /// The number of waiting files.
    pub fn len(&self) -> (r: usize)
        ensures
            r == self@.len(),
    {
        self.queue.len()
    }

    /// Whether `path` waits already.
    pub fn contains(&self, path: &str) -> (r: bool)
        ensures
            r == self@.contains(path@),
    {
        let mut i: usize = 0;
        while i < self.queue.len()
            invariant
                i <= self.queue@.len(),
                self@ == self.queue@.map_values(|s: String| s@),
                forall|j: int| 0 <= j < i ==> self@[j] != path@,
            decreases self.queue@.len() - i,
        {
            if str_eq(self.queue[i].as_str(), path) {
                proof {
                    assert(self@[i as int] == path@);
                }
                return true;
            }
            i = i + 1;
        }
        false
    }

    /// Queues `path` unless it waits already; true when it was added.
    pub fn enqueue(&mut self, path: String) -> (r: bool)
        ensures
            r == !old(self)@.contains(path@),
            final(self)@ == if r {
                old(self)@.push(path@)
            } else {
                old(self)@
            },
            distinct_paths(old(self)@) ==> distinct_paths(final(self)@),
    {
        if self.contains(path.as_str()) {
            return false;
        }
        let ghost before = self@;
        self.queue.push(path);
        proof {
            assert(self.queue@.map_values(|s: String| s@) =~= before.push(path@));
        }
        true
    }

    /// Takes the file that has waited longest.
    pub fn pop_front(&mut self) -> (r: Option<String>)
        ensures
            old(self)@.len() == 0 ==> r is None && final(self)@ == old(self)@,
            old(self)@.len() > 0 ==> r is Some && r->Some_0@ == old(self)@[0] && final(self)@
                == old(self)@.drop_first(),
    {
        if self.queue.len() == 0 {
            return None;
        }
        let ghost before = self@;
        let first = self.queue.remove(0);
        proof {
            assert(self.queue@.map_values(|s: String| s@) =~= before.drop_first());
        }
        Some(first)
    }

    /// Queues, in the order given, each file name that matches `pattern` (every one
    /// when there is none) and does not wait already; gives the number added.
    pub fn discover(&mut self, found: Vec<(String, String)>, pattern: &Option<String>) -> (r: usize)
        ensures
            final(self)@ == old(self)@ + discovered(
                old(self)@,
                found@.map_values(|f: (String, String)| (f.0@, f.1@)),
                match pattern {
                    Some(p) => Some(p@),
                    None => None,
                },
            ),
            r == discovered(
                old(self)@,
                found@.map_values(|f: (String, String)| (f.0@, f.1@)),
                match pattern {
                    Some(p) => Some(p@),
                    None => None,
                },
            ).len(),
    {
        let ghost pat = match pattern {
            Some(p) => Some(p@),
            None => None,
        };
        let ghost fs = found@.map_values(|f: (String, String)| (f.0@, f.1@));
        let ghost start = self@;
        let mut added: usize = 0;
        let mut i: usize = 0;
        let n = found.len();
        while i < n
            invariant
                n == found@.len(),
                fs == found@.map_values(|f: (String, String)| (f.0@, f.1@)),
                i <= n,
                self@ == start + discovered(start, fs.subrange(0, i as int), pat),
                added == discovered(start, fs.subrange(0, i as int), pat).len(),
                added <= i,
                pat == match pattern {
                    Some(p) => Some(p@),
                    None => None::<Seq<char>>,
                },
            decreases n - i,
        {
            let path = found[i].0.clone();
            let wanted = match pattern {
                Some(p) => simple_pattern_match(found[i].1.as_str(), p.as_str()),
                None => true,
            };
            proof {
                assert(fs.subrange(0, i as int + 1).drop_last() =~= fs.subrange(0, i as int));
                assert(fs.subrange(0, i as int + 1).last() == fs[i as int]);
            }
            if wanted {
                if self.enqueue(path) {
                    added = added + 1;
                }
            }
            proof {
                assert(self@ =~= start + discovered(start, fs.subrange(0, i as int + 1), pat));
            }
            i = i + 1;
        }
        proof {
            assert(fs.subrange(0, n as int) =~= fs);
        }
        added
    }
}

/// What `discover` adds to a queue that holds `q`: of the files `found` (path and file
/// name), in order, those whose name the pattern takes and whose path neither waits
/// nor came earlier in the list.
pub open spec fn discovered(
    q: Seq<Seq<char>>,
    found: Seq<(Seq<char>, Seq<char>)>,
    pattern: Option<Seq<char>>,
) -> Seq<Seq<char>>
    decreases found.len(),
{
    if found.len() == 0 {
        Seq::empty()
    } else {
        let before = discovered(q, found.drop_last(), pattern);
        let (path, name) = found.last();
        let wanted = match pattern {
            Some(p) => glob(name, p),
            None => true,
        };
        if wanted && !(q + before).contains(path) {
            before.push(path)
        } else {
            before
        }
    }
}

} // verus!
