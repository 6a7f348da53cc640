//! The grammar stage: from raw patch text to a sequence of labeled nodes.
//!
//! The patch text is split into lines and each line is classified by a
//! fixed rule set: `--- ` introduces the input path, `+++ ` the output
//! path, `@@ -a,b +c,d @@` a hunk header (four decimal fields, starts
//! one-based as written), and a leading space, `-` or `+` a context,
//! deletion or insertion line.  A line matching no rule is a grammar
//! error.  The whole stage is specified by `spec_parse`, a total spec
//! function of the text's character sequence, and the executable parser
//! is proved to return exactly that value.

use vstd::prelude::*;
use vstd::string::StrSliceExecFns;
use vstd::string::StringExecFns;

use crate::error::Error;
use crate::model::ContextHeader;

verus! {

/// One node of the parse tree: a patch line labeled by the grammar rule
/// it matched, carrying its text with the rule's marker prefix removed.
#[derive(Debug)]
pub enum Node {
    /// Input path declaration (`--- ` line).
    File1(String),
    /// Output path declaration (`+++ ` line).
    File2(String),
    /// Hunk range marker, fields exactly as written (one-based starts).
    Header(ContextHeader),
    /// Context line (leading space).
    Ctx(String),
    /// Deletion line (leading `-`).
    Del(String),
    /// Insertion line (leading `+`).
    Ins(String),
}

/// Ghost counterpart of `Node`.
pub ghost enum NodeModel {
    File1(Seq<char>),
    File2(Seq<char>),
    Header(ContextHeader),
    Ctx(Seq<char>),
    Del(Seq<char>),
    Ins(Seq<char>),
}

impl View for Node {
    type V = NodeModel;

    open spec fn view(&self) -> NodeModel {
        match self {
            Node::File1(s) => NodeModel::File1(s@),
            Node::File2(s) => NodeModel::File2(s@),
            Node::Header(h) => NodeModel::Header(*h),
            Node::Ctx(s) => NodeModel::Ctx(s@),
            Node::Del(s) => NodeModel::Del(s@),
            Node::Ins(s) => NodeModel::Ins(s@),
        }
    }
}

impl DeepView for Node {
    type V = NodeModel;

    open spec fn deep_view(&self) -> NodeModel {
        self.view()
    }
}

/// Splits a character sequence at `'\n'`: `cur` is the line being read,
/// `acc` the lines already read.  A final fragment is kept only if it is
/// nonempty, so a trailing newline adds no empty line.
pub open spec fn spec_lines_loop(
    s: Seq<char>,
    i: int,
    cur: Seq<char>,
    acc: Seq<Seq<char>>,
) -> Seq<Seq<char>>
    decreases s.len() - i,
{
    if i < 0 || i >= s.len() {
        if cur.len() > 0 {
            acc.push(cur)
        } else {
            acc
        }
    } else if s[i] == '\n' {
        spec_lines_loop(s, i + 1, Seq::empty(), acc.push(cur))
    } else {
        spec_lines_loop(s, i + 1, cur.push(s[i]), acc)
    }
}

/// The lines of the patch text, in order.
pub open spec fn spec_lines(s: Seq<char>) -> Seq<Seq<char>> {
    spec_lines_loop(s, 0, Seq::empty(), Seq::empty())
}

/// A decimal digit.
pub open spec fn is_digit(c: char) -> bool {
    48 <= c as u32 && c as u32 <= 57
}

/// The numeric value of a decimal digit.
pub open spec fn digit_val(c: char) -> int {
    c as u32 - 48
}

/// The value of a digit sequence read as a decimal number.
pub open spec fn spec_num_val(s: Seq<char>) -> int
    decreases s.len(),
{
    if s.len() == 0 {
        0
    } else {
        spec_num_val(s.drop_last()) * 10 + digit_val(s.last())
    }
}

/// The first position at or after `i` holding no digit (or the end).
pub open spec fn scan_digits(l: Seq<char>, i: int) -> int
    decreases l.len() - i,
{
    if i < 0 || i >= l.len() {
        i
    } else if !is_digit(l[i]) {
        i
    } else {
        scan_digits(l, i + 1)
    }
}

/// What the grammar makes of a line whose first four characters are
/// `@@ -`: either a header node or an error.  The four fields must be
/// nonempty digit runs in the exact frame `@@ -a,b +c,d @@`; a field
/// whose value exceeds `usize::MAX` is an integer-parse error.
pub open spec fn spec_header(l: Seq<char>, idx: usize) -> Result<NodeModel, Error> {
    let p1 = scan_digits(l, 4);
    if p1 == 4 || !(p1 < l.len() && l[p1] == ',') {
        Err(Error::Grammar(idx))
    } else {
        let p2 = scan_digits(l, p1 + 1);
        if p2 == p1 + 1 || !(p2 + 1 < l.len() && l[p2] == ' ' && l[p2 + 1] == '+') {
            Err(Error::Grammar(idx))
        } else {
            let p3 = scan_digits(l, p2 + 2);
            if p3 == p2 + 2 || !(p3 < l.len() && l[p3] == ',') {
                Err(Error::Grammar(idx))
            } else {
                let p4 = scan_digits(l, p3 + 1);
                if p4 == p3 + 1 || l.len() != p4 + 3 || l[p4] != ' ' || l[p4 + 1] != '@' || l[p4
                    + 2] != '@' {
                    Err(Error::Grammar(idx))
                } else {
                    let v1 = spec_num_val(l.subrange(4, p1));
                    let v2 = spec_num_val(l.subrange(p1 + 1, p2));
                    let v3 = spec_num_val(l.subrange(p2 + 2, p3));
                    let v4 = spec_num_val(l.subrange(p3 + 1, p4));
                    if v1 > usize::MAX || v2 > usize::MAX || v3 > usize::MAX || v4 > usize::MAX {
                        Err(Error::IntegerParse(idx))
                    } else {
                        Ok(
                            NodeModel::Header(
                                ContextHeader {
                                    file1_l: v1 as usize,
                                    file1_s: v2 as usize,
                                    file2_l: v3 as usize,
                                    file2_s: v4 as usize,
                                },
                            ),
                        )
                    }
                }
            }
        }
    }
}

/// What the grammar makes of one line at position `idx`.  The path and
/// header rules are tried before the one-character markers, so `--- x`
/// is a path declaration, never a deletion of `-- x`.
pub open spec fn spec_classify(l: Seq<char>, idx: usize) -> Result<NodeModel, Error> {
    if l.len() >= 4 && l[0] == '-' && l[1] == '-' && l[2] == '-' && l[3] == ' ' {
        Ok(NodeModel::File1(l.skip(4)))
    } else if l.len() >= 4 && l[0] == '+' && l[1] == '+' && l[2] == '+' && l[3] == ' ' {
        Ok(NodeModel::File2(l.skip(4)))
    } else if l.len() >= 4 && l[0] == '@' && l[1] == '@' && l[2] == ' ' && l[3] == '-' {
        spec_header(l, idx)
    } else if l.len() >= 1 && l[0] == ' ' {
        Ok(NodeModel::Ctx(l.skip(1)))
    } else if l.len() >= 1 && l[0] == '-' {
        Ok(NodeModel::Del(l.skip(1)))
    } else if l.len() >= 1 && l[0] == '+' {
        Ok(NodeModel::Ins(l.skip(1)))
    } else {
        Err(Error::Grammar(idx))
    }
}

/// Classifies the lines from position `i` on, stopping at the first
/// grammar violation.
pub open spec fn spec_parse_from(ls: Seq<Seq<char>>, i: int, acc: Seq<NodeModel>) -> Result<
    Seq<NodeModel>,
    Error,
>
    decreases ls.len() - i,
{
    if i < 0 || i >= ls.len() {
        Ok(acc)
    } else {
        match spec_classify(ls[i], i as usize) {
            Err(e) => Err(e),
            Ok(n) => spec_parse_from(ls, i + 1, acc.push(n)),
        }
    }
}

/// The whole grammar stage as a function of the patch text.
pub open spec fn spec_parse(s: Seq<char>) -> Result<Seq<NodeModel>, Error> {
    spec_parse_from(spec_lines(s), 0, Seq::empty())
}

/// The model of a node result: errors unchanged, nodes by their view.
pub open spec fn node_res_view(r: Result<Node, Error>) -> Result<NodeModel, Error> {
    match r {
        Ok(n) => Ok(n@),
        Err(e) => Err(e),
    }
}

/// The model of a node-sequence result.
pub open spec fn nodes_res_view(r: Result<Vec<Node>, Error>) -> Result<Seq<NodeModel>, Error> {
    match r {
        Ok(v) => Ok(v.deep_view()),
        Err(e) => Err(e),
    }
}

/// Splits the patch text into lines, as `spec_lines` describes.
pub fn split_lines(s: &str) -> (r: Vec<String>)
    ensures
        r.deep_view() == spec_lines(s@),
{
    let n = s.unicode_len();
    let mut acc: Vec<String> = Vec::new();
    let mut start: usize = 0;
    let mut i: usize = 0;
    proof {
        assert(s@.subrange(0, 0) =~= Seq::<char>::empty());
        assert(acc.deep_view() =~= Seq::<Seq<char>>::empty());
    }
    while i < n
        invariant
            n == s@.len(),
            start <= i <= n,
            spec_lines_loop(
                s@,
                i as int,
                s@.subrange(start as int, i as int),
                acc.deep_view(),
            ) == spec_lines(s@),
        decreases n - i,
    {
        let c = s.get_char(i);
        if c == '\n' {
            let line = String::from_str(s.substring_char(start, i));
            let ghost dv = acc.deep_view();
            acc.push(line);
            proof {
                assert(acc.deep_view() =~= dv.push(s@.subrange(start as int, i as int)));
                assert(s@.subrange(i as int + 1, i as int + 1) =~= Seq::<char>::empty());
            }
            start = i + 1;
        } else {
            proof {
                assert(s@.subrange(start as int, i as int + 1) =~= s@.subrange(
                    start as int,
                    i as int,
                ).push(s@[i as int]));
            }
        }
        i += 1;
    }
    if start < n {
        let line = String::from_str(s.substring_char(start, n));
        let ghost dv = acc.deep_view();
        acc.push(line);
        proof {
            assert(acc.deep_view() =~= dv.push(s@.subrange(start as int, n as int)));
        }
    }
    acc
}

/// Decides `is_digit` on a character.
fn digit(c: char) -> (b: bool)
    ensures
        b == is_digit(c),
{
    let u = c as u32;
    48 <= u && u <= 57
}

/// Finds the end of the digit run starting at `i`, as `scan_digits`
/// describes; every character before the returned position is a digit.
fn find_digits_end(s: &str, n: usize, i: usize) -> (r: usize)
    requires
        n == s@.len(),
        i <= n,
    ensures
        i <= r <= n,
        r == scan_digits(s@, i as int),
        forall|k: int| i <= k < r ==> is_digit(s@[k]),
{
    let mut j = i;
    while j < n && digit(s.get_char(j))
        invariant
            n == s@.len(),
            i <= j <= n,
            scan_digits(s@, j as int) == scan_digits(s@, i as int),
            forall|k: int| i <= k < j ==> is_digit(s@[k]),
        decreases n - j,
    {
        proof {
            assert(scan_digits(s@, j as int) == scan_digits(s@, j as int + 1));
        }
        j += 1;
    }
    proof {
        assert(scan_digits(s@, j as int) == j);
    }
    j
}

/// Reads the decimal value of the digit run `s[from..to]`; `None` when
/// the value does not fit a `usize`.
fn parse_number(s: &str, n: usize, from: usize, to: usize) -> (r: Option<usize>)
    requires
        n == s@.len(),
        from <= to <= n,
        forall|k: int| from <= k < to ==> is_digit(s@[k]),
    ensures
        match r {
            Some(v) => v == spec_num_val(s@.subrange(from as int, to as int)),
            None => spec_num_val(s@.subrange(from as int, to as int)) > usize::MAX,
        },
{
    let ghost whole = s@.subrange(from as int, to as int);
    let mut acc: usize = 0;
    let mut j = from;
    while j < to
        invariant
            n == s@.len(),
            from <= j <= to <= n,
            forall|k: int| from <= k < to ==> is_digit(s@[k]),
            whole == s@.subrange(from as int, to as int),
            acc == spec_num_val(s@.subrange(from as int, j as int)),
        decreases to - j,
    {
        let c = s.get_char(j);
        let d = (c as u32 - 48) as usize;
        if acc > (usize::MAX - d) / 10 {
            proof {
                assert(acc * 10 + d > usize::MAX) by (nonlinear_arith)
                    requires
                        acc > (usize::MAX - d) / 10,
                        d <= 9,
                ;
                assert(s@.subrange(from as int, j as int + 1).drop_last() =~= s@.subrange(
                    from as int,
                    j as int,
                ));
                assert(s@.subrange(from as int, j as int + 1).last() == s@[j as int]);
                assert(spec_num_val(s@.subrange(from as int, j as int + 1)) == acc * 10 + d);
                assert(whole.take(j + 1 - from) =~= s@.subrange(from as int, j as int + 1));
                lemma_num_val_prefix_le(whole, j + 1 - from);
            }
            return None;
        }
        proof {
            assert(acc * 10 + d <= usize::MAX) by (nonlinear_arith)
                requires
                    acc <= (usize::MAX - d) / 10,
                    d <= 9,
            ;
            assert(s@.subrange(from as int, j as int + 1).drop_last() =~= s@.subrange(
                from as int,
                j as int,
            ));
            assert(s@.subrange(from as int, j as int + 1).last() == s@[j as int]);
        }
        acc = acc * 10 + d;
        j += 1;
    }
    Some(acc)
}

/// A digit sequence has a non-negative value.
pub proof fn lemma_num_val_nonneg(s: Seq<char>)
    requires
        forall|k: int| 0 <= k < s.len() ==> is_digit(s[k]),
    ensures
        spec_num_val(s) >= 0,
    decreases s.len(),
{
    if s.len() > 0 {
        assert(forall|k: int| 0 <= k < s.drop_last().len() ==> is_digit(s.drop_last()[k]));
        lemma_num_val_nonneg(s.drop_last());
    }
}

/// Reading more digits never shrinks the value.
pub proof fn lemma_num_val_prefix_le(s: Seq<char>, i: int)
    requires
        0 <= i <= s.len(),
        forall|k: int| 0 <= k < s.len() ==> is_digit(s[k]),
    ensures
        spec_num_val(s.take(i)) <= spec_num_val(s),
    decreases s.len() - i,
{
    if i == s.len() {
        assert(s.take(i) =~= s);
    } else {
        assert(s.take(i + 1).drop_last() =~= s.take(i));
        assert(s.take(i + 1).last() == s[i]);
        assert(forall|k: int| 0 <= k < s.take(i).len() ==> is_digit(s.take(i)[k]));
        lemma_num_val_nonneg(s.take(i));
        assert(spec_num_val(s.take(i)) <= spec_num_val(s.take(i + 1)));
        lemma_num_val_prefix_le(s, i + 1);
    }
}

/// Reads a hunk header line, as `spec_header` describes.
fn parse_header(s: &str, n: usize, idx: usize) -> (r: Result<Node, Error>)
    requires
        n == s@.len(),
        n >= 4,
        s@[0] == '@',
        s@[1] == '@',
        s@[2] == ' ',
        s@[3] == '-',
    ensures
        node_res_view(r) == spec_header(s@, idx),
{
    let p1 = find_digits_end(s, n, 4);
    if p1 == 4 || p1 == n {
        return Err(Error::Grammar(idx));
    }
    if s.get_char(p1) != ',' {
        return Err(Error::Grammar(idx));
    }
    let p2 = find_digits_end(s, n, p1 + 1);
    if p2 == p1 + 1 || n - p2 < 2 {
        return Err(Error::Grammar(idx));
    }
    if s.get_char(p2) != ' ' || s.get_char(p2 + 1) != '+' {
        return Err(Error::Grammar(idx));
    }
    let p3 = find_digits_end(s, n, p2 + 2);
    if p3 == p2 + 2 || p3 == n {
        return Err(Error::Grammar(idx));
    }
    if s.get_char(p3) != ',' {
        return Err(Error::Grammar(idx));
    }
    let p4 = find_digits_end(s, n, p3 + 1);
    if p4 == p3 + 1 || n - p4 != 3 {
        return Err(Error::Grammar(idx));
    }
    if s.get_char(p4) != ' ' || s.get_char(p4 + 1) != '@' || s.get_char(p4 + 2) != '@' {
        return Err(Error::Grammar(idx));
    }
    let v1 = parse_number(s, n, 4, p1);
    let v2 = parse_number(s, n, p1 + 1, p2);
    let v3 = parse_number(s, n, p2 + 2, p3);
    let v4 = parse_number(s, n, p3 + 1, p4);
    match (v1, v2, v3, v4) {
        (Some(a), Some(b), Some(c), Some(d)) => Ok(
            Node::Header(ContextHeader { file1_l: a, file1_s: b, file2_l: c, file2_s: d }),
        ),
        _ => Err(Error::IntegerParse(idx)),
    }
}

/// Classifies one line at position `idx`, as `spec_classify` describes.
fn classify(l: &String, idx: usize) -> (r: Result<Node, Error>)
    ensures
        node_res_view(r) == spec_classify(l@, idx),
{
    let s = l.as_str();
    let n = s.unicode_len();
    if n >= 4 && s.get_char(0) == '-' && s.get_char(1) == '-' && s.get_char(2) == '-' && s.get_char(
        3,
    ) == ' ' {
        let tail = String::from_str(s.substring_char(4, n));
        proof {
            assert(tail@ =~= l@.skip(4));
        }
        Ok(Node::File1(tail))
    } else if n >= 4 && s.get_char(0) == '+' && s.get_char(1) == '+' && s.get_char(2) == '+'
        && s.get_char(3) == ' ' {
        let tail = String::from_str(s.substring_char(4, n));
        proof {
            assert(tail@ =~= l@.skip(4));
        }
        Ok(Node::File2(tail))
    } else if n >= 4 && s.get_char(0) == '@' && s.get_char(1) == '@' && s.get_char(2) == ' '
        && s.get_char(3) == '-' {
        parse_header(s, n, idx)
    } else if n >= 1 && s.get_char(0) == ' ' {
        let tail = String::from_str(s.substring_char(1, n));
        proof {
            assert(tail@ =~= l@.skip(1));
        }
        Ok(Node::Ctx(tail))
    } else if n >= 1 && s.get_char(0) == '-' {
        let tail = String::from_str(s.substring_char(1, n));
        proof {
            assert(tail@ =~= l@.skip(1));
        }
        Ok(Node::Del(tail))
    } else if n >= 1 && s.get_char(0) == '+' {
        let tail = String::from_str(s.substring_char(1, n));
        proof {
            assert(tail@ =~= l@.skip(1));
        }
        Ok(Node::Ins(tail))
    } else {
        Err(Error::Grammar(idx))
    }
}

/// The grammar stage: splits the patch text into lines and classifies
/// each, returning the node sequence that `spec_parse` describes, or the
/// first grammar violation.
pub fn parse(text: &str) -> (r: Result<Vec<Node>, Error>)
    ensures
        nodes_res_view(r) == spec_parse(text@),
{
    let lines = split_lines(text);
    let mut nodes: Vec<Node> = Vec::new();
    let mut i: usize = 0;
    proof {
        assert(nodes.deep_view() =~= Seq::<NodeModel>::empty());
    }
    while i < lines.len()
        invariant
            lines.deep_view() == spec_lines(text@),
            i <= lines.len(),
            lines.deep_view().len() == lines@.len(),
            spec_parse_from(lines.deep_view(), i as int, nodes.deep_view()) == spec_parse(text@),
        decreases lines.len() - i,
    {
        proof {
            assert(lines.deep_view()[i as int] == lines@[i as int]@);
        }
        match classify(&lines[i], i) {
            Ok(nd) => {
                let ghost dv = nodes.deep_view();
                nodes.push(nd);
                proof {
                    assert(nodes.deep_view() =~= dv.push(nd@));
                }
            },
            Err(e) => {
                return Err(e);
            },
        }
        i += 1;
    }
    Ok(nodes)
}

} // verus!
