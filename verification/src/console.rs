//! Rendering of dynamic values as text, and the `print` intrinsic's line.
//!
//! The core does not format numbers with a fractional part: a rendering is a
//! sequence of glyphs, each a character or a number that the host formats
//! when it writes the line out.

use vstd::prelude::*;
use vstd::string::StringExecFns;
use crate::scalar::Scalar;
use crate::text::starts_with;
use crate::variant::lemma_pairs_view;
use crate::variant::pairs_view;
use crate::variant::Dynamic;
use crate::variant::Foreign;
use crate::variant::Variant;

verus! {

/// One place of a rendering.
pub enum Glyph {
    Char(char),
    /// A number, to be formatted by whoever writes the rendering out.
    Number(Scalar),
}

/// A run of a rendering: some text, or one number.
#[derive(Debug, PartialEq)]
pub enum Fragment {
    Text(String),
    Number(Scalar),
}

/// The characters of `s` as glyphs.
pub open spec fn glyphs(s: Seq<char>) -> Seq<Glyph>
    decreases s.len(),
{
    if s.len() == 0 {
        Seq::empty()
    } else {
        glyphs(s.drop_last()).push(Glyph::Char(s.last()))
    }
}

/// The glyphs of one fragment.
pub open spec fn fragment_glyphs(f: Fragment) -> Seq<Glyph> {
    match f {
        Fragment::Text(s) => glyphs(s@),
        Fragment::Number(n) => seq![Glyph::Number(n)],
    }
}

/// The glyphs of a sequence of fragments, in order.
pub open spec fn flatten(frags: Seq<Fragment>) -> Seq<Glyph>
    decreases frags.len(),
{
    if frags.len() == 0 {
        Seq::empty()
    } else {
        flatten(frags.drop_last()) + fragment_glyphs(frags.last())
    }
}

/// The decimal digits of a natural number, most significant first.
pub open spec fn digits(n: nat) -> Seq<char>
    decreases n,
{
    if n < 10 {
        seq![('0' as u8 + n as u8) as char]
    } else {
        digits(n / 10).push(('0' as u8 + (n % 10) as u8) as char)
    }
}

/// An integer in decimal, with a minus sign where it is negative.
pub open spec fn decimal(i: int) -> Seq<char> {
    if i < 0 {
        seq!['-'] + digits((-i) as nat)
    } else {
        digits(i as nat)
    }
}

/// `depth` tab characters.
pub open spec fn tabs(depth: nat) -> Seq<char> {
    Seq::new(depth, |i: int| '\t')
}

/// The depth of what is nested in a value at depth `d`.
pub open spec fn deeper(d: nat) -> nat {
    if d < usize::MAX {
        d + 1
    } else {
        d
    }
}

/// How a value is written at indentation `depth`.
///
/// A table takes one line for each pair, key then value, indented one tab deeper
/// than the table itself and framed by braces.  A function is written as anonymous: for
/// a function that is a value, and not the one being called, the runtime knows no name.
pub open spec fn rendering(v: Dynamic, depth: nat) -> Seq<Glyph>
    decreases v,
{
    match v {
        Dynamic::Nil => glyphs("nil"@),
        Dynamic::Boolean(b) => if b {
            glyphs("true"@)
        } else {
            glyphs("false"@)
        },
        Dynamic::Integer(i) => glyphs(decimal(i as int)),
        Dynamic::Number(n) => seq![Glyph::Number(n)],
        Dynamic::Str(s) => glyphs(s),
        Dynamic::Table(entries) => glyphs("{\n"@) + rows(entries, depth) + glyphs(tabs(depth))
            + glyphs("}"@),
        Dynamic::Function(_) => glyphs("<function>(anonymous)"@),
        Dynamic::Error(m) => glyphs(m),
        Dynamic::Foreign(f) => match f {
            Foreign::LightUserData => glyphs("<lightuserdata>"@),
            Foreign::UserData => glyphs("<userdata>"@),
            Foreign::Thread => glyphs("<thread>"@),
            Foreign::Other => glyphs("<other>"@),
        },
    }
}

/// The lines of a table's pairs.
pub open spec fn rows(entries: Seq<(Dynamic, Dynamic)>, depth: nat) -> Seq<Glyph>
    decreases entries,
{
    if entries.len() == 0 {
        Seq::empty()
    } else {
        rows(entries.drop_last(), depth) + glyphs("\t"@) + glyphs(tabs(depth)) + rendering(
            entries.last().0,
            deeper(depth),
        ) + glyphs(": "@) + rendering(entries.last().1, deeper(depth)) + glyphs("\n"@)
    }
}

/// Appending a fragment appends its glyphs.
pub proof fn lemma_flatten_push(frags: Seq<Fragment>, f: Fragment)
    ensures
        flatten(frags.push(f)) == flatten(frags) + fragment_glyphs(f),
{
    assert(frags.push(f).drop_last() =~= frags);
}

/// Appends `s` to a rendering.
fn push_text(out: &mut Vec<Fragment>, s: &str)
    ensures
        flatten(final(out)@) == flatten(old(out)@) + glyphs(s@),
{
    let f = Fragment::Text(String::from_str(s));
    proof {
        lemma_flatten_push(out@, f);
    }
    out.push(f);
}

/// Appends one number to a rendering.
fn push_number(out: &mut Vec<Fragment>, n: Scalar)
    ensures
        flatten(final(out)@) == flatten(old(out)@) + seq![Glyph::Number(n)],
{
    proof {
        lemma_flatten_push(out@, Fragment::Number(n));
    }
    out.push(Fragment::Number(n));
}

/// Appends the decimal digits of `n` to `s`.
fn push_digits(s: &mut String, n: u64)
    ensures
        final(s)@ == old(s)@ + digits(n as nat),
    decreases n,
{
    if n >= 10 {
        push_digits(s, n / 10);
    }
    let d: u8 = (n % 10) as u8;
    s.push((48u8 + d) as char);
    proof {
        assert('0' as u8 == 48u8);
        assert(final(s)@ =~= old(s)@ + digits(n as nat));
    }
}

/// The decimal text of an integer.
pub fn decimal_text(i: i64) -> (s: String)
    ensures
        s@ == decimal(i as int),
{
    let mut s = String::new();
    if i < 0 {
        s.push('-');
        let m: u64 = (-(i as i128)) as u64;
        push_digits(&mut s, m);
        assert(s@ =~= decimal(i as int));
    } else {
        push_digits(&mut s, i as u64);
        assert(s@ =~= decimal(i as int));
    }
    s
}

/// A text of `depth` tab characters.
fn tab_text(depth: usize) -> (s: String)
    ensures
        s@ == tabs(depth as nat),
{
    let mut s = String::new();
    let mut i: usize = 0;
    while i < depth
        invariant
            i <= depth,
            s@ == tabs(i as nat),
        decreases depth - i,
    {
        s.push('\t');
        i += 1;
        assert(s@ =~= tabs(i as nat));
    }
    s
}

/// Appends the rendering of `ele` at indentation `depth`.
fn write_value(out: &mut Vec<Fragment>, ele: &Variant, depth: usize)
    ensures
        flatten(final(out)@) == flatten(old(out)@) + rendering(ele@, depth as nat),
    decreases ele,
{
    match ele {
        Variant::Nil => push_text(out, "nil"),
        Variant::Boolean(b) => if *b {
            push_text(out, "true")
        } else {
            push_text(out, "false")
        },
        Variant::Integer(i) => {
            let t = decimal_text(*i);
            push_text(out, t.as_str());
        },
        Variant::Number(n) => push_number(out, *n),
        Variant::Str(s) => push_text(out, s.as_str()),
        Variant::Function(_) => push_text(out, "<function>(anonymous)"),
        Variant::Error(m) => push_text(out, m.as_str()),
        Variant::Foreign(f) => match f {
            Foreign::LightUserData => push_text(out, "<lightuserdata>"),
            Foreign::UserData => push_text(out, "<userdata>"),
            Foreign::Thread => push_text(out, "<thread>"),
            Foreign::Other => push_text(out, "<other>"),
        },
        Variant::Table(entries) => {
            let inner: usize = if depth < usize::MAX {
                depth + 1
            } else {
                depth
            };
            let indent = tab_text(depth);
            push_text(out, "{\n");
            let ghost start = out@;
            let ghost model = ele@.entries();
            proof {
                lemma_pairs_view(entries@);
                assert(model.take(0) =~= Seq::<(Dynamic, Dynamic)>::empty());
                assert(flatten(start) + rows(model.take(0), depth as nat) =~= flatten(start));
            }
            let n = entries.len();
            let mut i: usize = 0;
            while i < n
                invariant
                    i <= n,
                    n == entries@.len(),
                    model == pairs_view(entries@),
                    model.len() == n,
                    inner == deeper(depth as nat),
                    indent@ == tabs(depth as nat),
                    decreases_to!(ele => entries),
                    flatten(out@) == flatten(start) + rows(model.take(i as int), depth as nat),
                decreases n - i,
            {
                proof {
                    lemma_pairs_view(entries@);
                    vstd::std_specs::vec::axiom_vec_index_decreases(*entries, i as int);
                }
                push_text(out, "\t");
                push_text(out, indent.as_str());
                write_value(out, &entries[i].0, inner);
                push_text(out, ": ");
                write_value(out, &entries[i].1, inner);
                push_text(out, "\n");
                proof {
                    let next = model.take(i as int + 1);
                    assert(next.drop_last() =~= model.take(i as int));
                    assert(next.last() == model[i as int]);
                    assert(rows(next, depth as nat) == rows(model.take(i as int), depth as nat)
                        + glyphs("\t"@) + glyphs(tabs(depth as nat)) + rendering(
                        model[i as int].0,
                        deeper(depth as nat),
                    ) + glyphs(": "@) + rendering(model[i as int].1, deeper(depth as nat)) + glyphs(
                        "\n"@,
                    ));
                    assert(flatten(out@) =~= flatten(start) + rows(next, depth as nat));
                }
                i += 1;
            }
            proof {
                assert(model.take(n as int) =~= model);
            }
            push_text(out, indent.as_str());
            push_text(out, "}");
            proof {
                assert(flatten(out@) =~= flatten(old(out)@) + rendering(ele@, depth as nat));
            }
        },
    }
}

/// The rendering of `ele` at indentation `depth`, in fragments.
pub fn stringify(ele: &Variant, depth: usize) -> (out: Vec<Fragment>)
    ensures
        flatten(out@) == rendering(ele@, depth as nat),
{
    let mut out: Vec<Fragment> = Vec::new();
    write_value(&mut out, ele, depth);
    assert(flatten(out@) =~= rendering(ele@, depth as nat));
    out
}

/// What follows `prefix` in a text value that begins with it; nothing for any other value.
pub open spec fn option_text(v: Dynamic, prefix: Seq<char>) -> Option<Seq<char>> {
    match v {
        Dynamic::Str(s) => if starts_with(s, prefix) {
            Some(s.subrange(prefix.len() as int, s.len() as int))
        } else {
            None
        },
        _ => None,
    }
}

/// How a call of `print` is laid out: how many leading arguments are written, what
/// separates them, and what ends the line.
pub struct Layout {
    pub count: nat,
    pub sep: Seq<char>,
    pub end: Seq<char>,
}

/// The layout that the arguments of `print` ask for.
///
/// The last argument may be a text `end=...` or `sep=...`; the one before it may then be
/// the other of the two.  Such arguments are not written.  Without them arguments are
/// separated by a comma and a space, and the line ends with a line feed.
pub open spec fn layout(args: Seq<Variant>) -> Layout {
    let n = args.len();
    if n >= 1 && option_text(args[n - 1]@, "end="@) is Some {
        let end = option_text(args[n - 1]@, "end="@)->0;
        if n >= 2 && option_text(args[n - 2]@, "sep="@) is Some {
            Layout { count: (n - 2) as nat, sep: option_text(args[n - 2]@, "sep="@)->0, end }
        } else {
            Layout { count: (n - 1) as nat, sep: ", "@, end }
        }
    } else if n >= 1 && option_text(args[n - 1]@, "sep="@) is Some {
        let sep = option_text(args[n - 1]@, "sep="@)->0;
        if n >= 2 && option_text(args[n - 2]@, "end="@) is Some {
            Layout { count: (n - 2) as nat, sep, end: option_text(args[n - 2]@, "end="@)->0 }
        } else {
            Layout { count: (n - 1) as nat, sep, end: "\n"@ }
        }
    } else {
        Layout { count: n, sep: ", "@, end: "\n"@ }
    }
}

/// The first `count` arguments, each written at indentation 0, with `sep` between them.
pub open spec fn joined(args: Seq<Variant>, count: nat, sep: Seq<char>) -> Seq<Glyph>
    decreases count,
{
    if count == 0 {
        Seq::empty()
    } else if count == 1 {
        rendering(args[0]@, 0)
    } else {
        joined(args, (count - 1) as nat, sep) + glyphs(sep) + rendering(args[count - 1]@, 0)
    }
}

/// The line that `print` writes for its arguments.
pub open spec fn printed(args: Seq<Variant>) -> Seq<Glyph> {
    let l = layout(args);
    joined(args, l.count, l.sep) + glyphs(l.end)
}

/// What follows `prefix` in `v`, where `v` is a text that begins with it.
fn option_of(v: &Variant, prefix: &str) -> (r: Option<String>)
    ensures
        match r {
            Some(s) => option_text(v@, prefix@) == Some(s@),
            None => option_text(v@, prefix@) is None,
        },
{
    match v {
        Variant::Str(s) => {
            let t = s.as_str();
            let n = t.unicode_len();
            let m = prefix.unicode_len();
            if m > n {
                return None;
            }
            let mut i: usize = 0;
            while i < m
                invariant
                    i <= m,
                    m <= n,
                    n == t@.len(),
                    m == prefix@.len(),
                    v@ == Dynamic::Str(t@),
                    forall|j: int| 0 <= j < i ==> t@[j] == prefix@[j],
                decreases m - i,
            {
                if t.get_char(i) != prefix.get_char(i) {
                    proof {
                        assert(t@.subrange(0, m as int)[i as int] == t@[i as int]);
                    }
                    return None;
                }
                i += 1;
            }
            assert(t@.subrange(0, m as int) =~= prefix@);
            Some(String::from_str(t.substring_char(m, n)))
        },
        _ => None,
    }
}

/// The line that the `print` intrinsic writes for `args`, in fragments.
pub fn print_line(args: &Vec<Variant>) -> (out: Vec<Fragment>)
    ensures
        flatten(out@) == printed(args@),
{
    let n = args.len();
    let mut count: usize = n;
    let mut sep = String::from_str(", ");
    let mut end = String::from_str("\n");
    if n >= 1 {
        match option_of(&args[n - 1], "end=") {
            Some(e) => {
                end = e;
                count = n - 1;
                if n >= 2 {
                    match option_of(&args[n - 2], "sep=") {
                        Some(s) => {
                            sep = s;
                            count = n - 2;
                        },
                        None => {},
                    }
                }
            },
            None => match option_of(&args[n - 1], "sep=") {
                Some(s) => {
                    sep = s;
                    count = n - 1;
                    if n >= 2 {
                        match option_of(&args[n - 2], "end=") {
                            Some(e) => {
                                end = e;
                                count = n - 2;
                            },
                            None => {},
                        }
                    }
                },
                None => {},
            },
        }
    }
    assert(count == layout(args@).count && sep@ == layout(args@).sep && end@ == layout(args@).end);
    let mut out: Vec<Fragment> = Vec::new();
    let mut i: usize = 0;
    while i < count
        invariant
            i <= count,
            count <= args@.len(),
            flatten(out@) == joined(args@, i as nat, sep@),
        decreases count - i,
    {
        if i > 0 {
            push_text(&mut out, sep.as_str());
        }
        write_value(&mut out, &args[i], 0);
        i += 1;
        proof {
            assert(flatten(out@) =~= joined(args@, i as nat, sep@));
        }
    }
    push_text(&mut out, end.as_str());
    out
}

} // verus!
