//! The ignore matcher: which changed paths the patterns of the ignore files cover.
//!
//! The patterns are parsed, compiled and matched by the `ignore` crate. What this module
//! states of that crate it takes on trust; the items that do so say so.

use crate::error::IoWatchError;
use crate::text::{lines, split_lines};
use ignore::gitignore::{Gitignore, GitignoreBuilder};
use vstd::prelude::*;
use vstd::std_specs::iter::IteratorSpec;
use vstd::string::StringExecFns;

verus! {

/// The matcher of the `ignore` crate, once built.
#[verifier::external_type_specification]
#[verifier::external_body]
pub struct ExGitignore(Gitignore);

/// The builder of the `ignore` crate, which collects patterns line by line.
#[verifier::external_type_specification]
#[verifier::external_body]
pub struct ExGitignoreBuilder(GitignoreBuilder);

/// The directory that a builder matches relative to.
pub uninterp spec fn builder_root(b: GitignoreBuilder) -> Seq<char>;

/// The patterns that a builder holds, each as the text it keeps of the line it came from,
/// in the order in which they were added.
pub uninterp spec fn builder_patterns(b: GitignoreBuilder) -> Seq<Seq<char>>;

/// The directory that a matcher matches relative to.
pub uninterp spec fn matcher_root(m: Gitignore) -> Seq<char>;

/// The patterns that a matcher holds, in the order in which they were added.
pub uninterp spec fn matcher_patterns(m: Gitignore) -> Seq<Seq<char>>;

/// What `GitignoreBuilder::add_line` makes of one line: `None` where it rejects the line,
/// otherwise the patterns that it appends (none for a comment or a blank line, else one).
pub uninterp spec fn line_patterns(line: Seq<char>) -> Option<Seq<Seq<char>>>;

/// Whether `GitignoreBuilder::build` succeeds on a builder that holds these patterns.
pub uninterp spec fn patterns_compile(patterns: Seq<Seq<char>>) -> bool;

/// Whether a matcher with this root and these patterns reports the path, or one of its
/// parent directories up to the root, as ignored.
pub uninterp spec fn pattern_verdict(
    root: Seq<char>,
    patterns: Seq<Seq<char>>,
    path: Seq<char>,
    is_dir: bool,
) -> bool;

/// `root` as a builder keeps it: without a leading `./`.
pub open spec fn without_dot_slash(root: Seq<char>) -> Seq<char> {
    if root.len() >= 2 && root[0] == '.' && root[1] == '/' {
        root.skip(2)
    } else {
        root
    }
}

/// Whether `root` is an absolute path.
pub open spec fn is_absolute(root: Seq<char>) -> bool {
    root.len() > 0 && root[0] == '/'
}

/// Whether `path` is `root` itself or lies below it: it begins with `root`, and what
/// follows is nothing, or one `/` and a relative path, or a relative path where `root`
/// already ends in `/`.
pub open spec fn under_root(root: Seq<char>, path: Seq<char>) -> bool {
    &&& root.len() <= path.len()
    &&& path.take(root.len() as int) == root
    &&& {
        let tail = path.skip(root.len() as int);
        ||| tail.len() == 0
        ||| tail[0] == '/' && (tail.len() == 1 || tail[1] != '/')
        ||| tail[0] != '/' && root.len() > 0 && root.last() == '/'
    }
}

/// Whether `path` is a relative path that does not begin with `.//`.
pub open spec fn plain_relative(path: Seq<char>) -> bool {
    &&& path.len() == 0 || path[0] != '/'
    &&& !(path.len() >= 3 && path[0] == '.' && path[1] == '/' && path[2] == '/')
}

/// Whether the patterns below `root` can be asked about `path`: the root is absolute,
/// and the path lies below it or is relative.
pub open spec fn applies(root: Seq<char>, path: Seq<char>) -> bool {
    is_absolute(root) && (under_root(root, path) || plain_relative(path))
}

/// `GitignoreBuilder::new`: the builder holds no pattern, and keeps the root it is given
/// but for a leading `./`.
#[verifier::external_body]
fn new_builder(root: &str) -> (b: GitignoreBuilder)
    ensures
        builder_root(b) == without_dot_slash(root@),
        builder_patterns(b) == Seq::<Seq<char>>::empty(),
{
    GitignoreBuilder::new(root)
}

/// `GitignoreBuilder::add_line`, called without a source path: the line is rejected and
/// the builder left as it was, or the builder holds what the line adds after what it
/// held. Which of the two, and what is added, depends on the line alone. The root stays.
#[verifier::external_body]
fn add_line(b: &mut GitignoreBuilder, line: &str) -> (ok: bool)
    ensures
        ok == line_patterns(line@) is Some,
        builder_root(*final(b)) == builder_root(*old(b)),
        builder_patterns(*final(b)) == match line_patterns(line@) {
            Some(added) => builder_patterns(*old(b)) + added,
            None => builder_patterns(*old(b)),
        },
{
    b.add_line(None, line).is_ok()
}

/// `GitignoreBuilder::build`: whether it succeeds depends on the patterns held, a
/// builder without patterns always builds, and the matcher has the builder's root and
/// patterns.
#[verifier::external_body]
fn build_matcher(b: &GitignoreBuilder) -> (r: Option<Gitignore>)
    ensures
        r is Some == patterns_compile(builder_patterns(*b)),
        builder_patterns(*b).len() == 0 ==> r is Some,
        r matches Some(m) ==> matcher_root(m) == builder_root(*b) && matcher_patterns(m)
            == builder_patterns(*b),
{
    b.build().ok()
}

/// `Gitignore::matched_path_or_any_parents`, reduced to whether the answer is "ignored".
/// The answer depends on the matcher's root and patterns, the path and the flag; a
/// matcher without patterns ignores nothing. The call panics on a path that is still
/// absolute once the root is stripped from it: `applies` leaves those out.
#[verifier::external_body]
fn matches_path(m: &Gitignore, path: &str, is_dir: bool) -> (r: bool)
    requires
        applies(matcher_root(*m), path@),
    ensures
        r == pattern_verdict(matcher_root(*m), matcher_patterns(*m), path@, is_dir),
        matcher_patterns(*m).len() == 0 ==> !r,
{
    m.matched_path_or_any_parents(path, is_dir).is_ignore()
}

/// What a matcher is made of: the directory it is rooted at and its patterns.
#[verifier::ext_equal]
pub struct Rules {
    pub root: Seq<char>,
    pub patterns: Seq<Seq<char>>,
}

impl Rules {
    /// Whether these rules ignore `path`. A path that lies outside the root is never
    /// ignored.
    pub open spec fn ignores(self, path: Seq<char>, is_dir: bool) -> bool {
        applies(self.root, path) && pattern_verdict(self.root, self.patterns, path, is_dir)
    }
}

/// The byte order mark, which may stand at the start of a file.
pub open spec fn is_bom(c: char) -> bool {
    c == '\u{feff}'
}

/// Number of byte order marks at the front of `s`.
pub open spec fn leading_boms(s: Seq<char>) -> nat
    decreases s.len(),
{
    if s.len() > 0 && is_bom(s[0]) {
        1 + leading_boms(s.skip(1))
    } else {
        0
    }
}

/// The pattern lines of one ignore file: its lines, the first without the byte order
/// marks at its front.
pub open spec fn rule_lines(content: Seq<char>) -> Seq<Seq<char>> {
    let all = lines(content);
    if all.len() > 0 {
        all.update(0, all[0].skip(leading_boms(all[0]) as int))
    } else {
        all
    }
}

/// Index of the first line that is rejected as a pattern, if there is one.
pub open spec fn first_rejected(ls: Seq<Seq<char>>) -> Option<int>
    decreases ls.len(),
{
    if ls.len() == 0 {
        None
    } else if line_patterns(ls[0]) is None {
        Some(0)
    } else {
        match first_rejected(ls.skip(1)) {
            Some(j) => Some(j + 1),
            None => None,
        }
    }
}

/// The patterns that the lines add, in order. A rejected line adds none.
pub open spec fn patterns_of_lines(ls: Seq<Seq<char>>) -> Seq<Seq<char>>
    decreases ls.len(),
{
    if ls.len() == 0 {
        Seq::empty()
    } else {
        patterns_of_lines(ls.drop_last()) + match line_patterns(ls.last()) {
            Some(added) => added,
            None => Seq::empty(),
        }
    }
}

/// The patterns that the files add, file after file.
pub open spec fn patterns_of_files(files: Seq<Seq<char>>) -> Seq<Seq<char>>
    decreases files.len(),
{
    if files.len() == 0 {
        Seq::empty()
    } else {
        patterns_of_files(files.drop_last()) + patterns_of_lines(rule_lines(files.last()))
    }
}

/// The first rejected line of the files: the index of its file and its index in it.
pub open spec fn first_malformed(files: Seq<Seq<char>>) -> Option<(int, int)>
    decreases files.len(),
{
    if files.len() == 0 {
        None
    } else {
        match first_rejected(rule_lines(files[0])) {
            Some(j) => Some((0, j)),
            None => match first_malformed(files.skip(1)) {
                Some((f, j)) => Some((f + 1, j)),
                None => None,
            },
        }
    }
}

/// What building a matcher from the contents of the ignore files gives.
pub open spec fn build_outcome(root: Seq<char>, files: Seq<Seq<char>>) -> Result<
    Rules,
    IoWatchError,
> {
    if !is_absolute(root) {
        Err(IoWatchError::RootNotAbsolute)
    } else if let Some((f, j)) = first_malformed(files) {
        Err(IoWatchError::MalformedIgnore { file: f as usize, line: j as usize })
    } else if !patterns_compile(patterns_of_files(files)) {
        Err(IoWatchError::IgnoreCompile)
    } else {
        Ok(Rules { root: root, patterns: patterns_of_files(files) })
    }
}

/// Where every line before `j` is accepted and the one at `j`, if any, is rejected,
/// `j` is the first rejected line; where `j` is the length, there is none.
pub proof fn lemma_first_rejected(ls: Seq<Seq<char>>, j: int)
    requires
        0 <= j <= ls.len(),
        forall|k: int| 0 <= k < j ==> line_patterns(#[trigger] ls[k]) is Some,
        j < ls.len() ==> line_patterns(ls[j]) is None,
    ensures
        first_rejected(ls) == if j < ls.len() {
            Some(j)
        } else {
            None
        },
    decreases j,
{
    if j > 0 {
        let t = ls.skip(1);
        assert forall|k: int| 0 <= k < j - 1 implies line_patterns(#[trigger] t[k]) is Some by {
            assert(t[k] == ls[k + 1]);
        }
        lemma_first_rejected(t, j - 1);
    }
}

/// Where no file before `f` has a rejected line and the one at `f`, if any, has its
/// first at `j`, that is the first malformed line; where `f` is the length, there is none.
pub proof fn lemma_first_malformed(files: Seq<Seq<char>>, f: int, j: int)
    requires
        0 <= f <= files.len(),
        forall|g: int| 0 <= g < f ==> first_rejected(rule_lines(#[trigger] files[g])) is None,
        f < files.len() ==> first_rejected(rule_lines(files[f])) == Some(j),
    ensures
        first_malformed(files) == if f < files.len() {
            Some((f, j))
        } else {
            None
        },
    decreases f,
{
    if f > 0 {
        let t = files.skip(1);
        assert forall|g: int| 0 <= g < f - 1 implies first_rejected(
            rule_lines(#[trigger] t[g]),
        ) is None by {
            assert(t[g] == files[g + 1]);
        }
        lemma_first_malformed(t, f - 1, j);
    }
}

/// The first three characters of `s`, as far as it has them.
fn first_chars(s: &str) -> (r: (Option<char>, Option<char>, Option<char>))
    ensures
        r.0 == if s@.len() > 0 { Some(s@[0]) } else { None },
        r.1 == if s@.len() > 1 { Some(s@[1]) } else { None },
        r.2 == if s@.len() > 2 { Some(s@[2]) } else { None },
{
    let mut it = s.chars();
    assert(s@.skip(0) =~= s@);
    let a = it.next();
    let b = it.next();
    let c = it.next();
    (a, b, c)
}

/// Whether `root` is an absolute path.
fn root_is_absolute(root: &str) -> (r: bool)
    ensures
        r == is_absolute(root@),
{
    match first_chars(root).0 {
        Some(c) => c == '/',
        None => false,
    }
}

/// Whether `path` is a relative path that does not begin with `.//`.
fn path_is_plain_relative(path: &str) -> (r: bool)
    ensures
        r == plain_relative(path@),
{
    match first_chars(path) {
        (Some(a), Some(b), Some(c)) => a != '/' && !(a == '.' && b == '/' && c == '/'),
        (Some(a), _, _) => a != '/',
        _ => true,
    }
}

/// Whether `path` is `root` or lies below it.
fn path_is_under(root: &str, path: &str) -> (r: bool)
    ensures
        r == under_root(root@, path@),
{
    let mut r = root.chars();
    let mut p = path.chars();
    let mut slash_last = false;
    let ghost mut i: int = 0;
    proof {
        assert(root@.skip(0) =~= root@);
        assert(path@.skip(0) =~= path@);
        assert(path@.take(0) =~= root@.take(0));
    }
    loop
        invariant
            0 <= i <= root@.len(),
            i <= path@.len(),
            r.remaining() == root@.skip(i),
            p.remaining() == path@.skip(i),
            path@.take(i) == root@.take(i),
            slash_last == (i > 0 && root@[i - 1] == '/'),
        ensures
            i == root@.len(),
            i <= path@.len(),
            p.remaining() == path@.skip(i),
            path@.take(i) == root@,
            slash_last == (i > 0 && root@[i - 1] == '/'),
        decreases root@.len() - i,
    {
        match r.next() {
            Some(a) => {
                match p.next() {
                    Some(b) => {
                        if a != b {
                            proof {
                                if under_root(root@, path@) {
                                    assert(path@.take(root@.len() as int)[i] == root@[i]);
                                }
                            }
                            return false;
                        }
                        proof {
                            assert(root@.skip(i).drop_first() =~= root@.skip(i + 1));
                            assert(path@.skip(i).drop_first() =~= path@.skip(i + 1));
                            assert(path@.take(i + 1) =~= path@.take(i).push(path@[i]));
                            assert(root@.take(i + 1) =~= root@.take(i).push(root@[i]));
                            i = i + 1;
                        }
                        slash_last = a == '/';
                    },
                    None => {
                        return false;
                    },
                }
            },
            None => {
                proof {
                    assert(root@.take(i) =~= root@);
                }
                break ;
            },
        }
    }
    let ghost tail = path@.skip(i);
    let first = p.next();
    proof {
        if tail.len() > 0 {
            assert(tail.drop_first() =~= path@.skip(i + 1));
        }
    }
    let second = p.next();
    match first {
        None => true,
        Some(a) => {
            if a == '/' {
                match second {
                    None => true,
                    Some(b) => {
                        proof {
                            assert(tail.drop_first()[0] == tail[1]);
                        }
                        b != '/'
                    },
                }
            } else {
                slash_last
            }
        },
    }
}

/// A copy of `line` without the byte order marks at its front.
fn strip_boms(line: &str) -> (out: String)
    ensures
        out@ == line@.skip(leading_boms(line@) as int),
{
    let mut out = String::new();
    let mut front = true;
    let mut it = line.chars();
    let ghost mut i: int = 0;
    let ghost mut k: int = 0;
    proof {
        assert(line@.skip(0) =~= line@);
        assert(line@.subrange(0, 0) =~= Seq::<char>::empty());
    }
    loop
        invariant
            0 <= k <= i <= line@.len(),
            it.remaining() == line@.skip(i),
            forall|j: int| 0 <= j < k ==> is_bom(#[trigger] line@[j]),
            front ==> k == i,
            !front ==> !is_bom(line@[k]),
            out@ == line@.subrange(k, i),
        decreases line@.len() - i,
    {
        match it.next() {
            Some(c) => {
                proof {
                    assert(line@.skip(i).drop_first() =~= line@.skip(i + 1));
                }
                if front && c == '\u{feff}' {
                    proof {
                        k = k + 1;
                        assert(line@.subrange(k, i + 1) =~= Seq::<char>::empty());
                    }
                } else {
                    front = false;
                    out.push(c);
                    proof {
                        assert(line@.subrange(k, i + 1) =~= line@.subrange(k, i).push(line@[i]));
                    }
                }
                proof {
                    i = i + 1;
                }
            },
            None => {
                proof {
                    lemma_leading_boms(line@, k);
                    assert(line@.subrange(k, i) =~= line@.skip(k));
                }
                return out;
            },
        }
    }
}

/// Where every character before `k` is a byte order mark and the one at `k`, if any,
/// is not, `k` is the number of leading marks.
pub proof fn lemma_leading_boms(s: Seq<char>, k: int)
    requires
        0 <= k <= s.len(),
        forall|j: int| 0 <= j < k ==> is_bom(#[trigger] s[j]),
        k < s.len() ==> !is_bom(s[k]),
    ensures
        leading_boms(s) == k,
    decreases k,
{
    if k > 0 {
        let t = s.skip(1);
        assert forall|j: int| 0 <= j < k - 1 implies is_bom(#[trigger] t[j]) by {
            assert(t[j] == s[j + 1]);
        }
        lemma_leading_boms(t, k - 1);
    }
}

/// The names of the ignore files of a directory, in the order in which they are read.
pub fn ignore_file_names() -> (names: Vec<String>)
    ensures
        names.deep_view() == seq![".gitignore"@, ".ignore"@],
{
    let mut names: Vec<String> = Vec::new();
    names.push(String::from_str(".gitignore"));
    names.push(String::from_str(".ignore"));
    assert(names.deep_view() =~= seq![".gitignore"@, ".ignore"@]);
    names
}

/// Answers whether a changed path is covered by the patterns of the ignore files.
#[derive(Debug)]
pub struct IgnoreMatcher {
    root: String,
    inner: Gitignore,
}

impl View for IgnoreMatcher {
    type V = Rules;

    closed spec fn view(&self) -> Rules {
        Rules { root: matcher_root(self.inner), patterns: matcher_patterns(self.inner) }
    }
}

impl IgnoreMatcher {
    /// The root is absolute, and it is the root that the matcher was built with.
    #[verifier::type_invariant]
    spec fn rooted(self) -> bool {
        self.root@ == matcher_root(self.inner) && is_absolute(self.root@)
    }

    /// Builds the matcher for the directory `root` from the contents of the ignore files
    /// found there, in the order in which they are given. No files give a matcher that
    /// ignores nothing. A line that is no valid pattern fails the build.
    pub fn build(root: &str, files: &Vec<String>) -> (r: Result<IgnoreMatcher, IoWatchError>)
        ensures
            match r {
                Ok(m) => build_outcome(root@, files.deep_view()) == Ok::<Rules, IoWatchError>(m@),
                Err(e) => build_outcome(root@, files.deep_view()) == Err::<Rules, IoWatchError>(e),
            },
            files.len() == 0 && is_absolute(root@) ==> r is Ok,
    {
        if !root_is_absolute(root) {
            return Err(IoWatchError::RootNotAbsolute);
        }
        let ghost all = files.deep_view();
        let mut b = new_builder(root);
        let mut f: usize = 0;
        proof {
            assert(all.take(0) =~= Seq::<Seq<char>>::empty());
        }
        while f < files.len()
            invariant
                f <= files.len(),
                all == files.deep_view(),
                is_absolute(root@),
                builder_root(b) == root@,
                builder_patterns(b) == patterns_of_files(all.take(f as int)),
                forall|g: int| 0 <= g < f ==> first_rejected(rule_lines(#[trigger] all[g])) is None,
            decreases files.len() - f,
        {
            let ls = split_lines(files[f].as_str());
            let ghost rl = rule_lines(all[f as int]);
            let ghost done = patterns_of_files(all.take(f as int));
            let mut j: usize = 0;
            proof {
                assert(rl.take(0) =~= Seq::<Seq<char>>::empty());
                assert(done + Seq::<Seq<char>>::empty() =~= done);
            }
            while j < ls.len()
                invariant
                    j <= ls.len(),
                    f < files.len(),
                    all == files.deep_view(),
                    is_absolute(root@),
                    ls.deep_view() == lines(all[f as int]),
                    rl == rule_lines(all[f as int]),
                    rl.len() == ls.len(),
                    done == patterns_of_files(all.take(f as int)),
                    builder_root(b) == root@,
                    builder_patterns(b) == done + patterns_of_lines(rl.take(j as int)),
                    forall|k: int| 0 <= k < j ==> line_patterns(#[trigger] rl[k]) is Some,
                    forall|g: int|
                        0 <= g < f ==> first_rejected(rule_lines(#[trigger] all[g])) is None,
                decreases ls.len() - j,
            {
                let ghost before = builder_patterns(b);
                let ok = if j == 0 {
                    let first = strip_boms(ls[0].as_str());
                    add_line(&mut b, first.as_str())
                } else {
                    add_line(&mut b, ls[j].as_str())
                };
                proof {
                    assert(ls.deep_view()[j as int] == ls[j as int]@);
                    assert(ok == line_patterns(rl[j as int]) is Some);
                    assert(rl.take(j + 1).drop_last() =~= rl.take(j as int));
                    assert(rl.take(j + 1).last() == rl[j as int]);
                }
                if !ok {
                    proof {
                        lemma_first_rejected(rl, j as int);
                        lemma_first_malformed(all, f as int, j as int);
                    }
                    return Err(IoWatchError::MalformedIgnore { file: f, line: j });
                }
                proof {
                    let added = line_patterns(rl[j as int])->0;
                    assert(before + added =~= done + (patterns_of_lines(rl.take(j as int))
                        + added));
                }
                j = j + 1;
            }
            proof {
                assert(rl.take(ls.len() as int) =~= rl);
                lemma_first_rejected(rl, rl.len() as int);
                assert(all.take(f + 1).drop_last() =~= all.take(f as int));
                assert(all.take(f + 1).last() == all[f as int]);
            }
            f = f + 1;
        }
        proof {
            assert(all.take(files.len() as int) =~= all);
            lemma_first_malformed(all, all.len() as int, 0);
        }
        match build_matcher(&b) {
            None => Err(IoWatchError::IgnoreCompile),
            Some(m) => Ok(IgnoreMatcher { root: String::from_str(root), inner: m }),
        }
    }

    /// Whether the patterns ignore `path`, a directory where `is_dir` is set. The path
    /// itself and each of its parent directories up to the root are tried. A path
    /// outside the root is not ignored.
    pub fn is_ignored(&self, path: &str, is_dir: bool) -> (r: bool)
        ensures
            r == self@.ignores(path@, is_dir),
            self@.patterns.len() == 0 ==> !r,
    {
        proof {
            use_type_invariant(self);
        }
        if path_is_under(self.root.as_str(), path) || path_is_plain_relative(path) {
            matches_path(&self.inner, path, is_dir)
        } else {
            false
        }
    }
}

} // verus!
