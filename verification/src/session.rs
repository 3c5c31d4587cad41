use vstd::prelude::*;
use crate::app::App;
use crate::io::{chars_of, shorten_dir_with_home, shortened_dir};

verus! {

/// `a` comes before `b` in lexicographic order of characters (a proper
/// prefix comes first).
pub open spec fn seq_lt(a: Seq<char>, b: Seq<char>) -> bool {
    exists|k: int| #[trigger] lt_at(a, b, k)
}

/// `a` and `b` agree before position `k`, where `a` ends or has the smaller character.
pub open spec fn lt_at(a: Seq<char>, b: Seq<char>, k: int) -> bool {
    &&& 0 <= k <= a.len()
    &&& k < b.len()
    &&& forall|i: int| 0 <= i < k ==> a[i] == b[i]
    &&& (k == a.len() || a[k] < b[k])
}

proof fn lemma_lt_transitive(a: Seq<char>, b: Seq<char>, c: Seq<char>)
    requires
        seq_lt(a, b),
        seq_lt(b, c),
    ensures
        seq_lt(a, c),
{
    let k1 = choose|k: int| lt_at(a, b, k);
    let k2 = choose|k: int| lt_at(b, c, k);
    if k1 < k2 {
        assert(lt_at(a, c, k1));
    } else if k1 > k2 {
        assert(lt_at(a, c, k2));
    } else {
        assert(lt_at(a, c, k1));
    }
}

proof fn lemma_lt_irreflexive(a: Seq<char>)
    ensures
        !seq_lt(a, a),
{
    if seq_lt(a, a) {
        let k = choose|k: int| lt_at(a, a, k);
    }
}

/// How two character sequences compare.
#[derive(Debug, Clone, Copy, PartialEq, Eq, Structural)]
pub enum Order {
    Less,
    Equal,
    Greater,
}

/// Compare two strings character by character.
pub fn compare_text(a: &str, b: &str) -> (o: Order)
    ensures
        o == Order::Less <==> seq_lt(a@, b@),
        o == Order::Greater <==> seq_lt(b@, a@),
        o == Order::Equal <==> a@ == b@,
{
    let x = chars_of(a);
    let y = chars_of(b);
    let mut i: usize = 0;
    while i < x.len() && i < y.len()
        invariant
            x@ == a@,
            y@ == b@,
            i <= x.len(),
            i <= y.len(),
            forall|j: int| 0 <= j < i ==> x@[j] == y@[j],
        decreases x.len() - i,
    {
        if x[i] != y[i] {
            if x[i] < y[i] {
                proof {
                    assert(lt_at(a@, b@, i as int));
                    lemma_lt_asym(a@, b@);
                }
                return Order::Less;
            } else {
                proof {
                    assert(lt_at(b@, a@, i as int));
                    lemma_lt_asym(b@, a@);
                }
                return Order::Greater;
            }
        }
        i += 1;
    }
    if x.len() == y.len() {
        proof {
            assert(a@ =~= b@);
            lemma_lt_irreflexive(a@);
        }
        Order::Equal
    } else if x.len() < y.len() {
        proof {
            assert(lt_at(a@, b@, i as int));
            lemma_lt_asym(a@, b@);
        }
        Order::Less
    } else {
        proof {
            assert(lt_at(b@, a@, i as int));
            lemma_lt_asym(b@, a@);
        }
        Order::Greater
    }
}

proof fn lemma_lt_asym(a: Seq<char>, b: Seq<char>)
    requires
        seq_lt(a, b),
    ensures
        !seq_lt(b, a),
        a != b,
{
    lemma_lt_irreflexive(a);
    if seq_lt(b, a) {
        lemma_lt_transitive(a, b, a);
    }
}

proof fn lemma_push_contains(s: Seq<Seq<char>>, e: Seq<char>, x: Seq<char>)
    ensures
        s.push(e).contains(x) <==> (s.contains(x) || x == e),
{
    if s.push(e).contains(x) {
        let k = choose|k: int| 0 <= k < s.push(e).len() && s.push(e)[k] == x;
        if k < s.len() {
            assert(s[k] == x);
        }
    }
    if s.contains(x) {
        let k = choose|k: int| 0 <= k < s.len() && s[k] == x;
        assert(s.push(e)[k] == x);
    }
    if x == e {
        assert(s.push(e)[s.len() as int] == x);
    }
}

proof fn lemma_insert_contains(s: Seq<Seq<char>>, j: int, e: Seq<char>, x: Seq<char>)
    requires
        0 <= j <= s.len(),
    ensures
        s.insert(j, e).contains(x) <==> (s.contains(x) || x == e),
{
    let t = s.insert(j, e);
    if t.contains(x) {
        let k = choose|k: int| 0 <= k < t.len() && t[k] == x;
        if k < j {
            assert(s[k] == x);
        } else if k > j {
            assert(s[k - 1] == x);
        }
    }
    if s.contains(x) {
        let k = choose|k: int| 0 <= k < s.len() && s[k] == x;
        if k < j {
            assert(t[k] == x);
        } else {
            assert(t[k + 1] == x);
        }
    }
    if x == e {
        assert(t[j] == x);
    }
}

pub open spec fn views(v: Seq<String>) -> Seq<Seq<char>> {
    v.map_values(|s: String| s@)
}

/// Strictly increasing in lexicographic order (so without repeats).
pub open spec fn strictly_sorted(s: Seq<Seq<char>>) -> bool {
    forall|i: int, j: int| 0 <= i < j < s.len() ==> seq_lt(#[trigger] s[i], #[trigger] s[j])
}

/// The paths, sorted and without repeats.
pub fn sorted_unique(paths: &Vec<String>) -> (r: Vec<String>)
    ensures
        strictly_sorted(views(r@)),
        forall|x: Seq<char>| views(r@).contains(x) <==> views(paths@).contains(x),
{
    let mut r: Vec<String> = Vec::new();
    let n = paths.len();
    for i in 0..n
        invariant
            n == paths.len(),
            strictly_sorted(views(r@)),
            forall|x: Seq<char>| views(r@).contains(x) <==> views(paths@.take(i as int)).contains(x),
    {
        let p = &paths[i];
        let mut j: usize = 0;
        let mut found = false;
        let mut stop = false;
        while !stop && j < r.len()
            invariant
                j <= r.len(),
                forall|k: int| 0 <= k < j ==> seq_lt(#[trigger] views(r@)[k], p@),
                found ==> stop,
                found ==> j < r.len() && r@[j as int]@ == p@,
                stop && !found ==> j < r.len() && seq_lt(p@, r@[j as int]@),
            decreases r.len() - j + (if stop { 0int } else { 1int }),
        {
            let o = compare_text(r[j].as_str(), p.as_str());
            if o == Order::Equal {
                found = true;
                stop = true;
            } else if o == Order::Greater {
                stop = true;
            } else {
                j += 1;
            }
        }
        let ghost before = views(r@);
        proof {
            assert(views(paths@.take(i + 1)) =~= views(paths@.take(i as int)).push(p@));
        }
        if !found {
            r.insert(j, p.clone());
            proof {
                let after = views(r@);
                assert(after =~= before.insert(j as int, p@));
                assert forall|a: int, b: int| 0 <= a < b < after.len() implies seq_lt(
                    #[trigger] after[a],
                    #[trigger] after[b],
                ) by {
                    if b == j {
                        assert(after[a] == before[a]);
                    } else if a == j {
                        assert(after[b] == before[b - 1]);
                        if b - 1 > j {
                            assert(seq_lt(before[j as int], before[b - 1]));
                            lemma_lt_transitive(p@, before[j as int], before[b - 1]);
                        }
                    } else if a < j && b > j {
                        assert(after[b] == before[b - 1]);
                        if b - 1 < before.len() && (j as int) < before.len() {
                            assert(seq_lt(before[a], before[b - 1]));
                        }
                    } else if a > j {
                        assert(after[a] == before[a - 1]);
                        assert(after[b] == before[b - 1]);
                    } else {
                        assert(after[a] == before[a]);
                        assert(after[b] == before[b]);
                    }
                }
                assert forall|x: Seq<char>| after.contains(x) <==> views(paths@.take(i + 1)).contains(x) by {
                    lemma_push_contains(views(paths@.take(i as int)), p@, x);
                    lemma_insert_contains(before, j as int, p@, x);
                }
            }
        } else {
            proof {
                assert(before[j as int] == p@);
                assert forall|x: Seq<char>| before.contains(x) <==> views(paths@.take(i + 1)).contains(x) by {
                    lemma_push_contains(views(paths@.take(i as int)), p@, x);
                }
            }
        }
    }
    proof {
        assert(paths@.take(n as int) =~= paths@);
    }
    r
}

/// The line printed after exit for a saved file: its name and its side.
pub open spec fn saved_line(a: App, path: Seq<char>) -> Seq<char> {
    if path == a.model.left_content.path@ {
        a.left_filename@ + " (left): saved"@
    } else {
        a.right_filename@ + " (right): saved"@
    }
}

/// The lines printed after exit: one per saved file, in path order, each
/// file once, naming its pane.
pub fn saved_report(app: &App) -> (lines: Vec<String>)
    ensures
        exists|paths: Seq<Seq<char>>|
            {
                &&& strictly_sorted(paths)
                &&& forall|x: Seq<char>| paths.contains(x) <==> views(app.saved_files@).contains(x)
                &&& views(lines@) == paths.map_values(|p: Seq<char>| saved_line(*app, p))
            },
{
    let paths = sorted_unique(&app.saved_files);
    let left_path = app.model.left_content.path.as_str();
    let mut lines: Vec<String> = Vec::new();
    let n = paths.len();
    for i in 0..n
        invariant
            n == paths.len(),
            left_path@ == app.model.left_content.path@,
            views(lines@) == views(paths@).take(i as int).map_values(|p: Seq<char>| saved_line(*app, p)),
    {
        let mut line = String::new();
        if compare_text(paths[i].as_str(), left_path) == Order::Equal {
            line.append(app.left_filename.as_str());
            line.append(" (left): saved");
        } else {
            line.append(app.right_filename.as_str());
            line.append(" (right): saved");
        }
        let ghost before = views(lines@);
        lines.push(line);
        proof {
            assert(views(lines@) =~= before.push(line@));
            assert(views(paths@).take(i + 1) =~= views(paths@).take(i as int).push(paths@[i as int]@));
        }
    }
    proof {
        assert(views(paths@).take(n as int) =~= views(paths@));
    }
    lines
}

/// What `Path::parent` gives for `path`, shown as text.
pub uninterp spec fn path_parent(path: Seq<char>) -> Option<Seq<char>>;

/// What `Path::file_name` gives for `path`, shown as text.
pub uninterp spec fn path_file_name(path: Seq<char>) -> Option<Seq<char>>;

/// Calls `std::path::Path::parent` and shows the result as text. Claimed:
/// the result is `path_parent` of the argument.
#[verifier::external_body]
fn parent_of(path: &str) -> (r: Option<String>)
    ensures
        match r {
            Some(d) => path_parent(path@) == Some(d@),
            None => path_parent(path@) is None,
        },
{
    std::path::Path::new(path).parent().map(|d| d.display().to_string())
}

/// Calls `std::path::Path::file_name` and shows the result as text. Claimed:
/// the result is `path_file_name` of the argument.
#[verifier::external_body]
fn file_name_of(path: &str) -> (r: Option<String>)
    ensures
        match r {
            Some(f) => path_file_name(path@) == Some(f@),
            None => path_file_name(path@) is None,
        },
{
    std::path::Path::new(path).file_name().map(|f| f.to_string_lossy().into_owned())
}

/// The directory and the file name a pane shows for `path`.
pub open spec fn pane_labels_spec(path: Seq<char>, home: Option<Seq<char>>) -> (Seq<char>, Seq<char>) {
    (
        shortened_dir(
            match path_parent(path) {
                Some(d) => d,
                None => Seq::<char>::empty(),
            },
            home,
        ),
        match path_file_name(path) {
            Some(f) => f,
            None => Seq::<char>::empty(),
        },
    )
}

/// The labels of a pane for the file at `path` (made absolute by the
/// caller): its directory, shortened with `~` for the home directory `home`,
/// and its file name (each empty when the path has none).
pub fn pane_labels(path: &str, home: Option<&str>) -> (r: (String, String))
    ensures
        (r.0@, r.1@) == pane_labels_spec(
            path@,
            match home {
                Some(h) => Some(h@),
                None => None,
            },
        ),
{
    let parent = match parent_of(path) {
        Some(d) => d,
        None => String::new(),
    };
    let dir = shorten_dir_with_home(parent.as_str(), home);
    let name = match file_name_of(path) {
        Some(f) => f,
        None => String::new(),
    };
    (dir, name)
}

impl App {
    /// Name the panes after the files at `left_path` and `right_path` (made
    /// absolute by the caller; `home` is the home directory) and have the
    /// first frame center the current change block. Nothing else changes.
    pub fn label_panes(&mut self, left_path: &str, right_path: &str, home: Option<&str>)
        ensures
            (final(self).left_dir@, final(self).left_filename@) == pane_labels_spec(
                left_path@,
                match home {
                    Some(h) => Some(h@),
                    None => None,
                },
            ),
            (final(self).right_dir@, final(self).right_filename@) == pane_labels_spec(
                right_path@,
                match home {
                    Some(h) => Some(h@),
                    None => None,
                },
            ),
            *final(self) == (App {
                left_dir: final(self).left_dir,
                left_filename: final(self).left_filename,
                right_dir: final(self).right_dir,
                right_filename: final(self).right_filename,
                needs_initial_scroll: true,
                ..*old(self)
            }),
    {
        let (left_dir, left_filename) = pane_labels(left_path, home);
        let (right_dir, right_filename) = pane_labels(right_path, home);
        self.left_dir = left_dir;
        self.left_filename = left_filename;
        self.right_dir = right_dir;
        self.right_filename = right_filename;
        self.needs_initial_scroll = true;
    }
}

} // verus!
