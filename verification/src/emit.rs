//! The require emitter: the lexical relative path from the current file's
//! directory to a resolved target, normalized to forward slashes, given an
//! explicit relative marker, and wrapped as a long-bracket literal.
use vstd::prelude::*;
use vstd::string::StrSliceExecFns;
use vstd::string::StringExecFns;

use crate::errors::EmitError;
use crate::mode::PathRequireMode;
use crate::nodes::Arguments;
use crate::nodes::StringExpression;
use crate::nodes::long_bracket_ok;
use crate::text::fwd_slashes;
use crate::text::find_last;
use crate::text::parent_of;
use crate::text::leaf_of;
use crate::text::replace_backslashes;

verus! {

/// Whether a character may stand in a plain path component: not a
/// separator of either kind and not a drive marker.
pub open spec fn plain_char(c: char) -> bool {
    c != '/' && c != '\\' && c != ':'
}

pub open spec fn plain_rel_from(s: Seq<char>, at_start: bool) -> bool
    decreases s.len(),
{
    if s.len() == 0 {
        !at_start
    } else if s[0] == '/' {
        !at_start && plain_rel_from(s.skip(1), true)
    } else {
        plain_char(s[0]) && (at_start ==> s[0] != '.') && plain_rel_from(s.skip(1), false)
    }
}

/// Whether text is a plain relative path: nonempty `/`-separated components
/// of plain characters, none empty and none opening with a dot.
pub open spec fn plain_rel(s: Seq<char>) -> bool {
    plain_rel_from(s, true)
}

/// Whether text is a plain path: relative, or rooted with one leading `/`.
pub open spec fn plain_path(s: Seq<char>) -> bool {
    ||| plain_rel(s)
    ||| (s.len() > 1 && s[0] == '/' && plain_rel(s.skip(1)))
}

/// The tail of `path` after the prefix `base` and one separator, when
/// `path` extends `base` that way.
pub open spec fn strip_prefix(path: Seq<char>, base: Seq<char>) -> Option<Seq<char>> {
    if path.len() > base.len() + 1 && path.take(base.len() as int) == base && path[base.len() as int]
        == '/' {
        Some(path.skip(base.len() as int + 1))
    } else {
        None
    }
}

/// Whether the text opens with an explicit relative marker `./` or `../`.
pub open spec fn has_rel_marker(s: Seq<char>) -> bool {
    ||| (s.len() >= 2 && s[0] == '.' && s[1] == '/')
    ||| (s.len() >= 3 && s[0] == '.' && s[1] == '.' && s[2] == '/')
}

/// The marker rule: text without an explicit relative marker receives
/// `./`; text already marked passes through unchanged.
pub open spec fn apply_marker(s: Seq<char>) -> Seq<char> {
    if has_rel_marker(s) {
        s
    } else {
        seq!['.', '/'] + s
    }
}

/// A directory and a relative path, joined lexically.
pub open spec fn join_path(dir: Seq<char>, rel: Seq<char>) -> Seq<char> {
    if dir.len() == 0 {
        rel
    } else {
        dir + seq!['/'] + rel
    }
}

/// Where a literal, resolved lexically from `dir`, points: an explicit
/// `./` is dropped, each leading `../` steps to the parent, and what
/// remains joins the directory.
pub open spec fn lexical_resolve(dir: Seq<char>, lit: Seq<char>) -> Seq<char>
    decreases lit.len(),
{
    if lit.len() >= 2 && lit[0] == '.' && lit[1] == '/' {
        join_path(dir, lit.skip(2))
    } else if lit.len() >= 3 && lit[0] == '.' && lit[1] == '.' && lit[2] == '/' {
        lexical_resolve(parent_of(dir), lit.skip(3))
    } else {
        join_path(dir, lit)
    }
}

/// The lexical relative path from `base` to `path` in forward-slash form,
/// when one is expressible; a pure function of the two texts.
pub uninterp spec fn lexical_diff(path: Seq<char>, base: Seq<char>) -> Option<Seq<char>>;

/// The first component of a relative path: its text up to the first `/`.
pub open spec fn first_comp(s: Seq<char>) -> Seq<char>
    decreases s.len(),
{
    if s.len() == 0 {
        s
    } else if s[0] == '/' {
        Seq::empty()
    } else {
        seq![s[0]] + first_comp(s.skip(1))
    }
}

/// Whether `path` branches off one directory up from `base`: a plain
/// relative tail under the parent of `base` that opens with a component
/// other than `base`'s own final one.
pub open spec fn up_target(path: Seq<char>, base: Seq<char>) -> bool {
    &&& plain_path(base)
    &&& base.contains('/')
    &&& parent_of(base).len() > 0
    &&& strip_prefix(path, parent_of(base)) is Some
    &&& plain_rel(strip_prefix(path, parent_of(base)).unwrap())
    &&& first_comp(strip_prefix(path, parent_of(base)).unwrap()) != leaf_of(base)
}

/// Relies on pathdiff::diff_paths: the relative path from `base` to
/// `path`, computed lexically from the two arguments alone; the contract
/// speaks of its forward-slash form, so the platform's own separator in
/// the raw result is already normalized away. On plain inputs the crate
/// walks the shared component prefix and emits one `..` per remaining base
/// component, so a target under the base keeps its tail, and a target one
/// level up gains a single leading `..`; an empty base leaves a relative
/// path whole.
#[verifier::external_body]
fn diff_paths(path: &str, base: &str) -> (r: Option<String>)
    ensures
        r is Some <==> lexical_diff(path@, base@) is Some,
        r matches Some(d) ==> fwd_slashes(d@) == lexical_diff(path@, base@).unwrap(),
        r is None ==> !(base@.len() == 0 && plain_rel(path@)),
        r matches Some(d) ==> (base@.len() == 0 && plain_rel(path@) ==> fwd_slashes(d@) == path@),
        r is None ==> !(plain_path(base@) && strip_prefix(path@, base@) is Some && plain_rel(
            strip_prefix(path@, base@).unwrap(),
        )),
        r matches Some(d) ==> (plain_path(base@) && strip_prefix(path@, base@) is Some
            && plain_rel(strip_prefix(path@, base@).unwrap()) ==> fwd_slashes(d@) == strip_prefix(
            path@,
            base@,
        ).unwrap()),
        r is None ==> !up_target(path@, base@),
        r matches Some(d) ==> (up_target(path@, base@) ==> fwd_slashes(d@) == seq!['.', '.', '/']
            + strip_prefix(path@, parent_of(base@)).unwrap()),
{
    match pathdiff::diff_paths(std::path::Path::new(path), std::path::Path::new(base)) {
        Some(p) => match p.to_str() {
            Some(s) => Some(s.to_string()),
            None => None,
        },
        None => None,
    }
}

pub proof fn lemma_plain_rel_head(t: Seq<char>)
    requires
        plain_rel(t),
    ensures
        t.len() > 0,
        t[0] != '/',
        t[0] != '.',
        t[0] != '\\',
{
    assert(plain_rel_from(t, true));
}

pub proof fn lemma_marker_plain(t: Seq<char>)
    requires
        plain_rel(t),
    ensures
        !has_rel_marker(t),
        apply_marker(t) == seq!['.', '/'] + t,
{
    lemma_plain_rel_head(t);
}

pub proof fn lemma_marker_parent(t: Seq<char>)
    ensures
        has_rel_marker(seq!['.', '.', '/'] + t),
        apply_marker(seq!['.', '.', '/'] + t) == seq!['.', '.', '/'] + t,
{
    let m = seq!['.', '.', '/'] + t;
    assert(m[0] == '.' && m[1] == '.' && m[2] == '/');
}

pub proof fn lemma_resolve_marked(dir: Seq<char>, t: Seq<char>)
    requires
        plain_rel(t),
    ensures
        lexical_resolve(dir, seq!['.', '/'] + t) == join_path(dir, t),
{
    let lit = seq!['.', '/'] + t;
    assert(lit[0] == '.' && lit[1] == '/');
    assert(lit.skip(2) =~= t);
}

pub proof fn lemma_resolve_parent(dir: Seq<char>, t: Seq<char>)
    requires
        plain_rel(t),
    ensures
        lexical_resolve(dir, seq!['.', '.', '/'] + t) == join_path(parent_of(dir), t),
{
    let lit = seq!['.', '.', '/'] + t;
    assert(lit[0] == '.' && lit[1] == '.' && lit[2] == '/');
    assert(lit.skip(3) =~= t);
    lemma_plain_rel_head(t);
    assert(lexical_resolve(parent_of(dir), t) == join_path(parent_of(dir), t));
}

pub proof fn lemma_strip_join(path: Seq<char>, base: Seq<char>)
    requires
        strip_prefix(path, base) is Some,
        base.len() > 0,
    ensures
        join_path(base, strip_prefix(path, base).unwrap()) == path,
{
    let t = strip_prefix(path, base).unwrap();
    assert(base + seq!['/'] + t =~= path);
}

/// Law: wherever the computed difference held platform separators, the
/// marked literal holds only forward slashes — no backslash survives.
pub proof fn lemma_literal_forward_slashes(d: Seq<char>)
    ensures
        forall|i: int|
            0 <= i < apply_marker(fwd_slashes(d)).len() ==> apply_marker(fwd_slashes(d))[i] != '\\',
{
    let f = fwd_slashes(d);
    assert forall|i: int| 0 <= i < f.len() implies f[i] != '\\' by {
        assert(f[i] == (if d[i] == '\\' {
            '/'
        } else {
            d[i]
        }));
    }
    if !has_rel_marker(f) {
        let m = seq!['.', '/'] + f;
        assert forall|i: int| 0 <= i < m.len() implies m[i] != '\\' by {
            if i >= 2 {
                assert(m[i] == f[i - 2]);
            }
        }
    }
}

/// The directory containing the file at `p`: its final component removed.
pub fn parent_dir(p: &str) -> (r: String)
    ensures
        r@ == parent_of(p@),
{
    let lf = find_last(p, '/');
    proof {
        crate::text::lemma_last_index_of(p@, '/');
    }
    match lf {
        Some(i) => {
            if i == 0 {
                String::from_str(p.substring_char(0, 1))
            } else {
                String::from_str(p.substring_char(0, i))
            }
        },
        None => String::new(),
    }
}

fn has_marker(s: &str) -> (r: bool)
    ensures
        r == has_rel_marker(s@),
{
    let n: usize = s.unicode_len();
    if n >= 2 && s.get_char(0) == '.' && s.get_char(1) == '/' {
        return true;
    }
    if n >= 3 && s.get_char(0) == '.' && s.get_char(1) == '.' && s.get_char(2) == '/' {
        return true;
    }
    false
}

impl PathRequireMode {
    /// Emits the replacement import argument for the resolved target `path`
    /// as seen from the file at `current_path`: the lexical relative path
    /// from that file's directory, normalized to forward slashes, given an
    /// explicit relative marker, and wrapped as a long-bracket literal. A
    /// target under the file's directory keeps the `./` marker and resolves
    /// back to the same target; a target one directory up opens with `../`
    /// and no added `./`.
    pub fn generate_require(&self, path: &str, current_path: &str) -> (r: Result<
        Arguments,
        EmitError,
    >)
        ensures
            ({
                let dir = parent_of(current_path@);
                match r {
                    Ok(args) => lexical_diff(path@, dir) is Some && (args matches Arguments::StringLiteral(e)
                        && e.spec_value() == apply_marker(lexical_diff(path@, dir).unwrap())
                        && long_bracket_ok(e.spec_value())),
                    Err(e2) => (e2 is PathDifference <==> lexical_diff(path@, dir) is None) && (
                    e2 is Literal ==> lexical_diff(path@, dir) is Some && !long_bracket_ok(
                        apply_marker(lexical_diff(path@, dir).unwrap()),
                    )),
                }
            }),
            r matches Ok(args) ==> (args matches Arguments::StringLiteral(e) ==> forall|i: int|
                0 <= i < e.spec_value().len() ==> e.spec_value()[i] != '\\'),
            ({
                let dir = parent_of(current_path@);
                plain_path(dir) && strip_prefix(path@, dir) is Some && plain_rel(
                    strip_prefix(path@, dir).unwrap(),
                ) && long_bracket_ok(seq!['.', '/'] + strip_prefix(path@, dir).unwrap()) ==> (
                r matches Ok(args) && args matches Arguments::StringLiteral(e) && e.spec_value()
                    == seq!['.', '/'] + strip_prefix(path@, dir).unwrap() && lexical_resolve(
                    dir,
                    e.spec_value(),
                ) == path@)
            }),
            ({
                let dir = parent_of(current_path@);
                dir.len() == 0 && plain_rel(path@) && long_bracket_ok(seq!['.', '/'] + path@) ==> (
                r matches Ok(args) && args matches Arguments::StringLiteral(e) && e.spec_value()
                    == seq!['.', '/'] + path@ && lexical_resolve(dir, e.spec_value()) == path@)
            }),
            ({
                let dir = parent_of(current_path@);
                let up = parent_of(dir);
                up_target(path@, dir) && long_bracket_ok(
                    seq!['.', '.', '/'] + strip_prefix(path@, up).unwrap(),
                ) ==> (r matches Ok(args) && args matches Arguments::StringLiteral(e)
                    && e.spec_value() == seq!['.', '.', '/'] + strip_prefix(path@, up).unwrap()
                    && lexical_resolve(dir, e.spec_value()) == path@)
            }),
    {
        let dir = parent_dir(current_path);
        let d = match diff_paths(path, dir.as_str()) {
            Some(d) => d,
            None => {
                return Err(EmitError::PathDifference);
            },
        };
        let normalized = replace_backslashes(d.as_str());
        let marked: String;
        if has_marker(normalized.as_str()) {
            marked = normalized;
        } else {
            marked = String::from_str("./").concat(normalized.as_str());
            proof {
                reveal_strlit("./");
                assert("./"@ =~= seq!['.', '/']);
            }
        }
        let ghost mv = marked@;
        proof {
            assert(mv == apply_marker(fwd_slashes(d@)));
            assert(fwd_slashes(d@) == lexical_diff(path@, parent_of(current_path@)).unwrap());
            lemma_literal_forward_slashes(d@);
            let dirv = parent_of(current_path@);
            if plain_path(dirv) && strip_prefix(path@, dirv) is Some && plain_rel(
                strip_prefix(path@, dirv).unwrap(),
            ) {
                let t = strip_prefix(path@, dirv).unwrap();
                lemma_marker_plain(t);
                lemma_resolve_marked(dirv, t);
                lemma_strip_join(path@, dirv);
                assert(mv == seq!['.', '/'] + t);
            }
            if dirv.len() == 0 && plain_rel(path@) {
                lemma_marker_plain(path@);
                lemma_resolve_marked(dirv, path@);
            }
            let up = parent_of(dirv);
            if up_target(path@, dirv) {
                let t = strip_prefix(path@, up).unwrap();
                lemma_marker_parent(t);
                lemma_resolve_parent(dirv, t);
                lemma_strip_join(path@, up);
                assert(mv == seq!['.', '.', '/'] + t);
            }
        }
        match StringExpression::new(marked) {
            Ok(e) => Ok(Arguments::StringLiteral(e)),
            Err(_) => Err(EmitError::Literal),
        }
    }
}

} // verus!
