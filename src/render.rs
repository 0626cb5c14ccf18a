//! The layout of a shown event: a sequence of text pieces, each with the ink it
//! is painted in, joined into one string with or without ANSI styling.

use vstd::prelude::*;
use crate::filter::{Event, is_launch, is_launch_record};
use crate::level::Level;
use crate::text::{decimal, decimal_string, ends_with_char, seq_ends_with};
use yansi::{Color, Style};

verus! {

/// The styles the renderer paints with.
#[derive(PartialEq, Eq, Structural, Debug, Clone, Copy)]
pub enum Ink {
    Plain,
    Bold,
    Red,
    RedBold,
    Yellow,
    YellowBold,
    Blue,
    BlueBold,
    Magenta,
}

/// A run of text and the ink it is painted in.
pub struct Piece {
    pub text: String,
    pub ink: Ink,
}

impl View for Piece {
    type V = (Seq<char>, Ink);

    open spec fn view(&self) -> (Seq<char>, Ink) {
        (self.text@, self.ink)
    }
}

pub open spec fn views(ps: Seq<Piece>) -> Seq<(Seq<char>, Ink)> {
    ps.map_values(|p: Piece| p@)
}

/// A select-graphic-rendition escape with the given codes.
pub open spec fn sgr(codes: Seq<char>) -> Seq<char> {
    seq!['\x1b', '['] + codes + seq!['m']
}

/// The escape that starts an ink; none for plain text.
pub open spec fn ink_prefix(ink: Ink) -> Seq<char> {
    match ink {
        Ink::Plain => seq![],
        Ink::Bold => sgr(seq!['1']),
        Ink::Red => sgr(seq!['3', '1']),
        Ink::RedBold => sgr(seq!['1', ';', '3', '1']),
        Ink::Yellow => sgr(seq!['3', '3']),
        Ink::YellowBold => sgr(seq!['1', ';', '3', '3']),
        Ink::Blue => sgr(seq!['3', '4']),
        Ink::BlueBold => sgr(seq!['1', ';', '3', '4']),
        Ink::Magenta => sgr(seq!['3', '5']),
    }
}

/// The escape that ends an ink; none for plain text.
pub open spec fn ink_suffix(ink: Ink) -> Seq<char> {
    match ink {
        Ink::Plain => seq![],
        _ => sgr(seq!['0']),
    }
}

/// Relies on yansi's `Style::fmt_prefix`: the ANSI code that starts a style,
/// written whether or not painting is enabled process-wide.
#[verifier::external_body]
fn ansi_prefix(ink: Ink) -> (r: String)
    ensures
        r@ == ink_prefix(ink),
{
    let style = match ink {
        Ink::Plain => Style::default(),
        Ink::Bold => Style::default().bold(),
        Ink::Red => Color::Red.style(),
        Ink::RedBold => Color::Red.style().bold(),
        Ink::Yellow => Color::Yellow.style(),
        Ink::YellowBold => Color::Yellow.style().bold(),
        Ink::Blue => Color::Blue.style(),
        Ink::BlueBold => Color::Blue.style().bold(),
        Ink::Magenta => Color::Magenta.style(),
    };
    let mut s = String::new();
    let _ = style.fmt_prefix(&mut s);
    s
}

/// Relies on yansi's `Style::fmt_suffix`: the reset code that ends a style,
/// nothing for the plain style.
#[verifier::external_body]
fn ansi_suffix(ink: Ink) -> (r: String)
    ensures
        r@ == ink_suffix(ink),
{
    let style = match ink {
        Ink::Plain => Style::default(),
        Ink::Bold => Style::default().bold(),
        Ink::Red => Color::Red.style(),
        Ink::RedBold => Color::Red.style().bold(),
        Ink::Yellow => Color::Yellow.style(),
        Ink::YellowBold => Color::Yellow.style().bold(),
        Ink::Blue => Color::Blue.style(),
        Ink::BlueBold => Color::Blue.style().bold(),
        Ink::Magenta => Color::Magenta.style(),
    };
    let mut s = String::new();
    let _ = style.fmt_suffix(&mut s);
    s
}

/// The target marks a continuation line, drawn under the block before it.
pub open spec fn is_indented(target: Seq<char>) -> bool {
    seq_ends_with(target, '_')
}

/// The severity an event is drawn as: launch messages look like `Info`.
pub open spec fn display_level(e: Event) -> Level {
    if is_launch(e.target@) {
        Level::Info
    } else {
        e.level
    }
}

pub open spec fn nl() -> (Seq<char>, Ink) {
    ("\n"@, Ink::Plain)
}

/// The pieces of a debug block: marker, source location, tab-indented message.
pub open spec fn debug_pieces(e: Event) -> Seq<(Seq<char>, Ink)> {
    let file = match e.file {
        Some(f) => seq![(f@, Ink::Blue)],
        None => seq![],
    };
    let line = match e.line {
        Some(n) => seq![(":"@, Ink::Plain), (decimal(n as nat), Ink::Blue), nl()],
        None => seq![],
    };
    seq![("\n"@, Ink::Plain), ("-->"@, Ink::BlueBold), (" "@, Ink::Plain)] + file + line
        + seq![("\t"@, Ink::Plain), (e.message@, Ink::Plain), nl()]
}

/// The pieces after the indentation marker.
pub open spec fn body_pieces(e: Event) -> Seq<(Seq<char>, Ink)> {
    let indented = is_indented(e.target@);
    let msg = e.message@;
    match display_level(e) {
        Level::Error => if indented {
            seq![(msg, Ink::Red), nl()]
        } else {
            seq![("Error:"@, Ink::RedBold), (" "@, Ink::Plain), (msg, Ink::Red), nl()]
        },
        Level::Warn => if indented {
            seq![(msg, Ink::Yellow), nl()]
        } else {
            seq![("Warning:"@, Ink::YellowBold), (" "@, Ink::Plain), (msg, Ink::Yellow), nl()]
        },
        Level::Info => seq![(msg, Ink::Blue), nl()],
        Level::Trace => seq![(msg, Ink::Magenta), nl()],
        Level::Debug => debug_pieces(e),
    }
}

/// The marker that opens a continuation line.
pub open spec fn indent_pieces() -> Seq<(Seq<char>, Ink)> {
    seq![("   "@, Ink::Plain), (">>"@, Ink::Bold), (" "@, Ink::Plain)]
}

/// All pieces of an event, in output order.
pub open spec fn event_pieces(e: Event) -> Seq<(Seq<char>, Ink)> {
    if is_indented(e.target@) {
        indent_pieces() + body_pieces(e)
    } else {
        body_pieces(e)
    }
}

/// One piece as written: wrapped in its escapes when painting, bare otherwise.
pub open spec fn paint_piece(p: (Seq<char>, Ink), paint: bool) -> Seq<char> {
    if paint {
        ink_prefix(p.1) + p.0 + ink_suffix(p.1)
    } else {
        p.0
    }
}

/// The pieces written one after another.
pub open spec fn join(ps: Seq<(Seq<char>, Ink)>, paint: bool) -> Seq<char>
    decreases ps.len(),
{
    if ps.len() == 0 {
        seq![]
    } else {
        join(ps.drop_last(), paint) + paint_piece(ps.last(), paint)
    }
}

/// The text written for an event.
pub open spec fn rendered(e: Event, paint: bool) -> Seq<char> {
    join(event_pieces(e), paint)
}

fn push_piece(v: &mut Vec<Piece>, text: &str, ink: Ink)
    ensures
        views(final(v)@) == views(old(v)@).push((text@, ink)),
{
    let ghost before = v@;
    v.push(Piece { text: String::from_str(text), ink });
    assert(views(v@) =~= views(before).push((text@, ink)));
}

fn push_debug_pieces(v: &mut Vec<Piece>, event: &Event)
    ensures
        views(final(v)@) == views(old(v)@) + debug_pieces(*event),
{
    let ghost start = views(v@);
    push_piece(v, "\n", Ink::Plain);
    push_piece(v, "-->", Ink::BlueBold);
    push_piece(v, " ", Ink::Plain);
    let ghost head = views(v@);
    match &event.file {
        Some(f) => push_piece(v, f.as_str(), Ink::Blue),
        None => {},
    }
    let ghost with_file = views(v@);
    match event.line {
        Some(n) => {
            push_piece(v, ":", Ink::Plain);
            let digits = decimal_string(n);
            push_piece(v, digits.as_str(), Ink::Blue);
            push_piece(v, "\n", Ink::Plain);
        },
        None => {},
    }
    let ghost with_line = views(v@);
    push_piece(v, "\t", Ink::Plain);
    push_piece(v, event.message.as_str(), Ink::Plain);
    push_piece(v, "\n", Ink::Plain);
    assert(views(v@) =~= views(old(v)@) + debug_pieces(*event)) by {
        assert(head =~= start + seq![("\n"@, Ink::Plain), ("-->"@, Ink::BlueBold), (" "@, Ink::Plain)]);
    }
}

/// The pieces of an event, in output order.
pub fn pieces(event: &Event) -> (r: Vec<Piece>)
    ensures
        views(r@) == event_pieces(*event),
{
    let mut v: Vec<Piece> = Vec::new();
    assert(views(v@) =~= seq![]);
    let indented = ends_with_char(event.target.as_str(), '_');
    if indented {
        push_piece(&mut v, "   ", Ink::Plain);
        push_piece(&mut v, ">>", Ink::Bold);
        push_piece(&mut v, " ", Ink::Plain);
    }
    let ghost lead = views(v@);
    assert(lead =~= (if indented { indent_pieces() } else { seq![] }));
    let level = if is_launch_record(event.target.as_str()) {
        Level::Info
    } else {
        event.level
    };
    let msg = event.message.as_str();
    match level {
        Level::Error => {
            if !indented {
                push_piece(&mut v, "Error:", Ink::RedBold);
                push_piece(&mut v, " ", Ink::Plain);
            }
            push_piece(&mut v, msg, Ink::Red);
            push_piece(&mut v, "\n", Ink::Plain);
        },
        Level::Warn => {
            if !indented {
                push_piece(&mut v, "Warning:", Ink::YellowBold);
                push_piece(&mut v, " ", Ink::Plain);
            }
            push_piece(&mut v, msg, Ink::Yellow);
            push_piece(&mut v, "\n", Ink::Plain);
        },
        Level::Info => {
            push_piece(&mut v, msg, Ink::Blue);
            push_piece(&mut v, "\n", Ink::Plain);
        },
        Level::Trace => {
            push_piece(&mut v, msg, Ink::Magenta);
            push_piece(&mut v, "\n", Ink::Plain);
        },
        Level::Debug => {
            push_debug_pieces(&mut v, event);
        },
    }
    assert(views(v@) =~= lead + body_pieces(*event));
    v
}

/// Writes the pieces one after another, painted or bare.
pub fn join_pieces(ps: &Vec<Piece>, paint_enabled: bool) -> (r: String)
    ensures
        r@ == join(views(ps@), paint_enabled),
{
    let mut s = String::new();
    let mut i: usize = 0;
    assert(views(ps@).subrange(0, 0) =~= seq![]);
    while i < ps.len()
        invariant
            i <= ps@.len(),
            s@ == join(views(ps@).subrange(0, i as int), paint_enabled),
        decreases ps@.len() - i,
    {
        let p = &ps[i];
        if paint_enabled {
            let pre = ansi_prefix(p.ink);
            s.append(pre.as_str());
            s.append(p.text.as_str());
            let post = ansi_suffix(p.ink);
            s.append(post.as_str());
        } else {
            s.append(p.text.as_str());
        }
        assert(views(ps@).subrange(0, i + 1).drop_last() =~= views(ps@).subrange(0, i as int));
        i = i + 1;
    }
    assert(views(ps@).subrange(0, i as int) =~= views(ps@));
    s
}

/// The text written for an event, with ANSI styling only when `paint_enabled`.
pub fn render(event: &Event, paint_enabled: bool) -> (r: String)
    ensures
        r@ == rendered(*event, paint_enabled),
{
    let ps = pieces(event);
    join_pieces(&ps, paint_enabled)
}

/// The pieces the structured backend writes for one field value.
pub open spec fn field_pieces(value: Seq<char>) -> Seq<(Seq<char>, Ink)> {
    seq![("\t>>"@, Ink::Bold), (" "@, Ink::Plain), (value, Ink::Blue), (" "@, Ink::Plain)]
}

/// The text the structured backend writes for one field, given the value's debug
/// form: a bold `>>` marker after a tab, then the value in blue.
pub fn render_field(value: &str, paint_enabled: bool) -> (r: String)
    ensures
        r@ == join(field_pieces(value@), paint_enabled),
{
    let mut v: Vec<Piece> = Vec::new();
    assert(views(v@) =~= seq![]);
    push_piece(&mut v, "\t>>", Ink::Bold);
    push_piece(&mut v, " ", Ink::Plain);
    push_piece(&mut v, value, Ink::Blue);
    push_piece(&mut v, " ", Ink::Plain);
    assert(views(v@) =~= field_pieces(value@));
    join_pieces(&v, paint_enabled)
}

/// A launch message that is not a continuation line is drawn as `Info`: its
/// message in blue, with no severity label, whatever severity it was sent at.
pub proof fn lemma_launch_drawn_as_info(e: Event)
    requires
        is_launch(e.target@),
        !is_indented(e.target@),
    ensures
        event_pieces(e) == seq![(e.message@, Ink::Blue), nl()],
{
}

/// An error or warning on a continuation line gets the `>>` marker and no
/// severity label; the same event as a top-level line gets the bold label.
pub proof fn lemma_indented_drops_label(e: Event, top: Event)
    requires
        e.level == Level::Error || e.level == Level::Warn,
        top.level == e.level,
        top.message@ == e.message@,
        !is_launch(e.target@),
        !is_launch(top.target@),
        is_indented(e.target@),
        !is_indented(top.target@),
    ensures
        event_pieces(e) == indent_pieces() + seq![
            (e.message@, if e.level == Level::Error { Ink::Red } else { Ink::Yellow }),
            nl(),
        ],
        event_pieces(top) == seq![
            (
                if e.level == Level::Error { "Error:"@ } else { "Warning:"@ },
                if e.level == Level::Error { Ink::RedBold } else { Ink::YellowBold },
            ),
            (" "@, Ink::Plain),
            (e.message@, if e.level == Level::Error { Ink::Red } else { Ink::Yellow }),
            nl(),
        ],
{
}

/// `s` holds no escape character.
pub open spec fn no_escape(s: Seq<char>) -> bool {
    forall|i: int| 0 <= i < s.len() ==> s[i] != '\x1b'
}

/// `s` with its escape sequences removed; `in_escape` says that an escape
/// sequence, which ends at the next `m`, is open.
pub open spec fn strip_from(s: Seq<char>, in_escape: bool) -> Seq<char>
    decreases s.len(),
{
    if s.len() == 0 {
        seq![]
    } else if in_escape {
        strip_from(s.drop_first(), s[0] != 'm')
    } else if s[0] == '\x1b' {
        strip_from(s.drop_first(), true)
    } else {
        seq![s[0]] + strip_from(s.drop_first(), false)
    }
}

/// `s` with its ANSI escape sequences removed.
pub open spec fn strip_escapes(s: Seq<char>) -> Seq<char> {
    strip_from(s, false)
}

proof fn lemma_skip_to_m(c: Seq<char>, r: Seq<char>)
    requires
        forall|i: int| 0 <= i < c.len() ==> c[i] != 'm',
    ensures
        strip_from(c + seq!['m'] + r, true) == strip_from(r, false),
    decreases c.len(),
{
    let s = c + seq!['m'] + r;
    if c.len() == 0 {
        assert(s.drop_first() =~= r);
    } else {
        assert(s.drop_first() =~= c.drop_first() + seq!['m'] + r);
        lemma_skip_to_m(c.drop_first(), r);
    }
}

proof fn lemma_strip_sgr(codes: Seq<char>, r: Seq<char>)
    requires
        forall|i: int| 0 <= i < codes.len() ==> codes[i] != 'm',
    ensures
        strip_from(sgr(codes) + r, false) == strip_from(r, false),
{
    let c = seq!['['] + codes;
    assert(sgr(codes) + r =~= seq!['\x1b'] + (c + seq!['m'] + r));
    assert((sgr(codes) + r).drop_first() =~= c + seq!['m'] + r);
    lemma_skip_to_m(c, r);
}

proof fn lemma_strip_plain(t: Seq<char>, r: Seq<char>)
    requires
        no_escape(t),
    ensures
        strip_from(t + r, false) == t + strip_from(r, false),
    decreases t.len(),
{
    if t.len() == 0 {
        assert(t + r =~= r);
    } else {
        assert((t + r).drop_first() =~= t.drop_first() + r);
        lemma_strip_plain(t.drop_first(), r);
        assert(t =~= seq![t[0]] + t.drop_first());
    }
}

proof fn lemma_strip_ink(ink: Ink, t: Seq<char>, r: Seq<char>)
    requires
        no_escape(t),
    ensures
        strip_from(ink_prefix(ink) + t + ink_suffix(ink) + r, false) == t + strip_from(r, false),
{
    let pre = ink_prefix(ink);
    let suf = ink_suffix(ink);
    assert(pre + t + suf + r =~= pre + (t + (suf + r)));
    if ink != Ink::Plain {
        lemma_strip_sgr(seq!['0'], r);
        assert(suf == sgr(seq!['0']));
    } else {
        assert(suf + r =~= r);
    }
    lemma_strip_plain(t, suf + r);
    match ink {
        Ink::Plain => {
            assert(pre + (t + (suf + r)) =~= t + (suf + r));
        },
        Ink::Bold => lemma_strip_sgr(seq!['1'], t + (suf + r)),
        Ink::Red => lemma_strip_sgr(seq!['3', '1'], t + (suf + r)),
        Ink::RedBold => lemma_strip_sgr(seq!['1', ';', '3', '1'], t + (suf + r)),
        Ink::Yellow => lemma_strip_sgr(seq!['3', '3'], t + (suf + r)),
        Ink::YellowBold => lemma_strip_sgr(seq!['1', ';', '3', '3'], t + (suf + r)),
        Ink::Blue => lemma_strip_sgr(seq!['3', '4'], t + (suf + r)),
        Ink::BlueBold => lemma_strip_sgr(seq!['1', ';', '3', '4'], t + (suf + r)),
        Ink::Magenta => lemma_strip_sgr(seq!['3', '5'], t + (suf + r)),
    }
}

/// Every piece's text is free of escapes.
pub open spec fn texts_plain(ps: Seq<(Seq<char>, Ink)>) -> bool {
    forall|i: int| 0 <= i < ps.len() ==> no_escape(#[trigger] ps[i].0)
}

proof fn lemma_strip_join(ps: Seq<(Seq<char>, Ink)>, r: Seq<char>)
    requires
        texts_plain(ps),
    ensures
        strip_from(join(ps, true) + r, false) == join(ps, false) + strip_from(r, false),
    decreases ps.len(),
{
    if ps.len() == 0 {
        assert(join(ps, true) + r =~= r);
        assert(join(ps, false) + strip_from(r, false) =~= strip_from(r, false));
    } else {
        let init = ps.drop_last();
        let last = ps.last();
        assert(no_escape(ps[ps.len() - 1].0));
        assert(texts_plain(init)) by {
            assert forall|i: int| 0 <= i < init.len() implies no_escape(#[trigger] init[i].0) by {
                assert(init[i] == ps[i]);
            }
        }
        let tail = paint_piece(last, true) + r;
        assert(join(ps, true) + r =~= join(init, true) + tail);
        lemma_strip_join(init, tail);
        assert(tail =~= ink_prefix(last.1) + last.0 + ink_suffix(last.1) + r);
        lemma_strip_ink(last.1, last.0, r);
        assert(join(ps, false) + strip_from(r, false) =~= join(init, false) + (last.0 + strip_from(r, false)));
    }
}

proof fn lemma_join_plain_no_escape(ps: Seq<(Seq<char>, Ink)>)
    requires
        texts_plain(ps),
    ensures
        no_escape(join(ps, false)),
    decreases ps.len(),
{
    if ps.len() > 0 {
        let init = ps.drop_last();
        assert(no_escape(ps[ps.len() - 1].0));
        assert(texts_plain(init)) by {
            assert forall|i: int| 0 <= i < init.len() implies no_escape(#[trigger] init[i].0) by {
                assert(init[i] == ps[i]);
            }
        }
        lemma_join_plain_no_escape(init);
    }
}

proof fn lemma_decimal_no_escape(n: nat)
    ensures
        no_escape(decimal(n)),
    decreases n,
{
    if n >= 10 {
        lemma_decimal_no_escape(n / 10);
    }
}

proof fn lemma_event_texts_plain(e: Event)
    requires
        no_escape(e.message@),
        e.file matches Some(f) ==> no_escape(f@),
    ensures
        texts_plain(event_pieces(e)),
{
    reveal_strlit("\n");
    reveal_strlit("-->");
    reveal_strlit(" ");
    reveal_strlit("   ");
    reveal_strlit(">>");
    reveal_strlit(":");
    reveal_strlit("\t");
    reveal_strlit("Error:");
    reveal_strlit("Warning:");
    if let Some(n) = e.line {
        lemma_decimal_no_escape(n as nat);
    }
    let ps = event_pieces(e);
    assert forall|i: int| 0 <= i < ps.len() implies no_escape(#[trigger] ps[i].0) by {
        if is_indented(e.target@) {
            if i >= 3 {
                assert(ps[i] == body_pieces(e)[i - 3]);
            }
        }
    }
}

/// With color off the output holds no escape character (when the message and
/// file name hold none), and it is exactly the colored output with its escape
/// sequences removed.
pub proof fn lemma_color_only_adds_escapes(e: Event)
    requires
        no_escape(e.message@),
        e.file matches Some(f) ==> no_escape(f@),
    ensures
        no_escape(rendered(e, false)),
        strip_escapes(rendered(e, true)) == rendered(e, false),
{
    lemma_event_texts_plain(e);
    let ps = event_pieces(e);
    lemma_join_plain_no_escape(ps);
    lemma_strip_join(ps, seq![]);
    assert(join(ps, true) + seq![] =~= join(ps, true));
    assert(join(ps, false) + seq![] =~= join(ps, false));
}

} // verus!
