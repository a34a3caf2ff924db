//! Decorating a text with seeded, randomly placed star glyphs, framed by a
//! border line above and below.
use crate::lines::{
    byte_len, byte_len_within, lead_spaces, leading_space_count, longest_line_bytes,
    max_line_bytes, split_lines, text_lines,
};
use crate::rng::{
    draw_below, draw_bernoulli, draw_weighted, gen_seed, new_weighted_picker,
    picker_weight_count, small_rng_from_entropy, small_rng_from_seed,
};
pub use crate::rng::Seed;
use crate::text::{chars_of, pretty_debug, string_of};
use rand::distributions::Bernoulli;
use rand::rngs::SmallRng;
use vstd::prelude::*;

verus! {

/// The glyph at both ends of a border line.
pub const RAINBOW: char = '\u{1F308}';

/// The star glyphs, by index: a plain star, a glowing star and a sun.
pub open spec fn glyph(i: nat) -> char {
    if i == 0 {
        '\u{2B50}'
    } else if i == 1 {
        '\u{1F31F}'
    } else {
        '\u{2600}'
    }
}

/// One star placed in a run of blanks: how many blanks precede it, and which
/// glyph it is.
#[derive(Clone, Copy, Debug)]
pub struct Sparkle {
    pub offset: usize,
    pub glyph: usize,
}

/// The stars of one line: one among its leading spaces, one after its end.
#[derive(Clone, Copy, Debug)]
pub struct LineSparkles {
    pub lead: Option<Sparkle>,
    pub trail: Option<Sparkle>,
}

/// `n` spaces.
pub open spec fn spaces(n: nat) -> Seq<char> {
    Seq::new(n, |i: int| ' ')
}

/// The width of the decoration of `lines`: the longest line's byte length
/// plus a tenth of it plus two, or 0 where there are no lines.
pub open spec fn decoration_width(lines: Seq<Seq<char>>) -> nat {
    if lines.len() == 0 {
        0
    } else {
        let m = max_line_bytes(lines);
        m + m / 10 + 2
    }
}

/// A border line: a rainbow at each end, `width - 2` spaces between.
pub open spec fn border(width: nat) -> Seq<char> {
    seq![RAINBOW] + spaces(
        if width >= 2 {
            (width - 2) as nat
        } else {
            0
        },
    ) + seq![RAINBOW, '\n']
}

/// `s` without the spaces at its end.
pub open spec fn trim_end(s: Seq<char>) -> Seq<char>
    decreases s.len(),
{
    if s.len() > 0 && s.last() == ' ' {
        trim_end(s.drop_last())
    } else {
        s
    }
}

/// The stars of a line lie where they can: a leading one within the line's
/// leading spaces, a trailing one within the room the line leaves in `width`,
/// and each glyph one of the three.
pub open spec fn sparkles_fit_line(line: Seq<char>, width: nat, sp: LineSparkles) -> bool {
    &&& lead_fits(line, sp)
    &&& (sp.lead matches Some(s) ==> s.glyph < 3)
    &&& (sp.trail matches Some(t) ==> t.offset + byte_len(line) < width && t.glyph < 3)
}

/// The leading star of a line, if any, stands among its leading spaces.
pub open spec fn lead_fits(line: Seq<char>, sp: LineSparkles) -> bool {
    sp.lead matches Some(s) ==> s.offset < lead_spaces(line)
}

/// A decorated line: a space, then the line with its leading star put in
/// place of one of its leading spaces, then its trailing star after the given
/// number of blanks, without spaces at the end.
pub open spec fn decorated_line(line: Seq<char>, sp: LineSparkles) -> Seq<char> {
    let lead = lead_spaces(line);
    let head = match sp.lead {
        Some(s) => seq![' '] + spaces(s.offset as nat) + seq![glyph(s.glyph as nat)] + spaces(
            (lead - s.offset - 1) as nat,
        ) + line.skip(lead as int),
        None => seq![' '] + line,
    };
    let full = match sp.trail {
        Some(t) => head + spaces(t.offset as nat) + seq![glyph(t.glyph as nat)],
        None => head,
    };
    trim_end(full)
}

/// The decorated lines, each ended by a newline.
pub open spec fn decorated_body(lines: Seq<Seq<char>>, sps: Seq<LineSparkles>) -> Seq<char>
    decreases lines.len(),
{
    if lines.len() == 0 || sps.len() == 0 {
        Seq::empty()
    } else {
        decorated_body(lines.drop_last(), sps.drop_last()) + decorated_line(lines.last(), sps.last())
            + seq!['\n']
    }
}

/// Every line of `text` has its stars, and they fit.
pub open spec fn sparkles_fit(text: Seq<char>, sps: Seq<LineSparkles>) -> bool {
    let lines = text_lines(text);
    let width = decoration_width(lines);
    &&& sps.len() == lines.len()
    &&& forall|i: int| 0 <= i < sps.len() ==> sparkles_fit_line(lines[i], width, #[trigger] sps[i])
}

/// `text` decorated with the stars `sps`: a border, the decorated lines, a
/// border.
pub open spec fn decorated(text: Seq<char>, sps: Seq<LineSparkles>) -> Seq<char> {
    let lines = text_lines(text);
    let width = decoration_width(lines);
    border(width) + decorated_body(lines, sps) + border(width)
}

/// The texts short enough that their decoration's width fits in a `usize`.
pub open spec fn decorable(text: Seq<char>) -> bool {
    byte_len(text) <= usize::MAX / 2
}

fn push_spaces(out: &mut Vec<char>, n: usize)
    ensures
        final(out)@ == old(out)@ + spaces(n as nat),
{
    let ghost start = out@;
    let mut i: usize = 0;
    while i < n
        invariant
            i <= n,
            out@ == start + spaces(i as nat),
        decreases n - i,
    {
        out.push(' ');
        i = i + 1;
        assert(out@ =~= start + spaces(i as nat));
    }
}

fn push_from(out: &mut Vec<char>, src: &Vec<char>, start: usize)
    requires
        start <= src@.len(),
    ensures
        final(out)@ == old(out)@ + src@.skip(start as int),
{
    let ghost before = out@;
    let mut i: usize = start;
    while i < src.len()
        invariant
            start <= i <= src@.len(),
            out@ == before + src@.subrange(start as int, i as int),
        decreases src@.len() - i,
    {
        out.push(src[i]);
        i = i + 1;
        assert(out@ =~= before + src@.subrange(start as int, i as int));
    }
    assert(src@.subrange(start as int, i as int) =~= src@.skip(start as int));
}

fn trim_trailing_spaces(out: &mut Vec<char>)
    ensures
        final(out)@ == trim_end(old(out)@),
{
    while out.len() > 0 && out[out.len() - 1] == ' '
        invariant
            trim_end(out@) == trim_end(old(out)@),
        decreases out@.len(),
    {
        out.pop();
    }
}

fn glyph_char(i: usize) -> (r: char)
    ensures
        r == glyph(i as nat),
{
    if i == 0 {
        '\u{2B50}'
    } else if i == 1 {
        '\u{1F31F}'
    } else {
        '\u{2600}'
    }
}

fn decorate_line(line: &Vec<char>, sp: LineSparkles) -> (r: Vec<char>)
    requires
        lead_fits(line@, sp),
    ensures
        r@ == decorated_line(line@, sp),
{
    let mut out: Vec<char> = Vec::new();
    out.push(' ');
    let lead = leading_space_count(line);
    match sp.lead {
        Some(s) => {
            push_spaces(&mut out, s.offset);
            out.push(glyph_char(s.glyph));
            push_spaces(&mut out, lead - s.offset - 1);
            push_from(&mut out, line, lead);
        },
        None => {
            push_from(&mut out, line, 0);
            assert(line@.skip(0) =~= line@);
        },
    }
    let ghost lead_n = lead_spaces(line@);
    let ghost head = match sp.lead {
        Some(s) => seq![' '] + spaces(s.offset as nat) + seq![glyph(s.glyph as nat)] + spaces(
            (lead_n - s.offset - 1) as nat,
        ) + line@.skip(lead_n as int),
        None => seq![' '] + line@,
    };
    assert(out@ =~= head);
    match sp.trail {
        Some(t) => {
            push_spaces(&mut out, t.offset);
            out.push(glyph_char(t.glyph));
            assert(out@ =~= head + spaces(t.offset as nat) + seq![glyph(t.glyph as nat)]);
        },
        None => {},
    }
    trim_trailing_spaces(&mut out);
    out
}

fn push_border(out: &mut Vec<char>, width: usize)
    ensures
        final(out)@ == old(out)@ + border(width as nat),
{
    out.push(RAINBOW);
    push_spaces(out, width.saturating_sub(2));
    out.push(RAINBOW);
    out.push('\n');
}

fn render(lines: &Vec<Vec<char>>, width: usize, sps: &Vec<LineSparkles>) -> (r: Vec<char>)
    requires
        sps@.len() == lines@.len(),
        forall|i: int|
            0 <= i < sps@.len() ==> lead_fits(lines@[i]@, #[trigger] sps@[i]),
    ensures
        r@ == border(width as nat) + decorated_body(lines@.map_values(|l: Vec<char>| l@), sps@)
            + border(width as nat),
{
    let ghost views = lines@.map_values(|l: Vec<char>| l@);
    let mut out: Vec<char> = Vec::new();
    push_border(&mut out, width);
    let mut i: usize = 0;
    while i < lines.len()
        invariant
            i <= lines@.len(),
            sps@.len() == lines@.len(),
            views == lines@.map_values(|l: Vec<char>| l@),
            forall|i: int|
                0 <= i < sps@.len() ==> lead_fits(lines@[i]@, #[trigger] sps@[i]),
            out@ == border(width as nat) + decorated_body(
                views.subrange(0, i as int),
                sps@.subrange(0, i as int),
            ),
        decreases lines@.len() - i,
    {
        assert(views.subrange(0, i + 1).drop_last() =~= views.subrange(0, i as int));
        assert(sps@.subrange(0, i + 1).drop_last() =~= sps@.subrange(0, i as int));
        let mut line_out = decorate_line(&lines[i], sps[i]);
        line_out.push('\n');
        out.append(&mut line_out);
        i = i + 1;
        assert(out@ =~= border(width as nat) + decorated_body(
            views.subrange(0, i as int),
            sps@.subrange(0, i as int),
        ));
    }
    assert(views.subrange(0, i as int) =~= views);
    assert(sps@.subrange(0, i as int) =~= sps@);
    push_border(&mut out, width);
    out
}

/// The lines of `text` and the width of their decoration.
fn lines_and_width(text: &Vec<char>) -> (r: (Vec<Vec<char>>, usize))
    requires
        decorable(text@),
    ensures
        r.0@.map_values(|l: Vec<char>| l@) == text_lines(text@),
        r.1 == decoration_width(text_lines(text@)),
        forall|i: int| 0 <= i < r.0@.len() ==> byte_len(#[trigger] r.0@[i]@) <= byte_len(text@),
{
    let lines = split_lines(text);
    assert(lines@.map_values(|l: Vec<char>| l@) =~= text_lines(text@));
    let longest = longest_line_bytes(&lines, Ghost(text@));
    let width = if lines.len() == 0 {
        0
    } else {
        longest + longest / 10 + 2
    };
    (lines, width)
}

/// `debug_str` decorated with the stars `sparkles`, one entry per line.
pub fn decorate(debug_str: &str, sparkles: &Vec<LineSparkles>) -> (r: String)
    requires
        decorable(debug_str@),
        sparkles_fit(debug_str@, sparkles@),
    ensures
        r@ == decorated(debug_str@, sparkles@),
{
    let text = chars_of(debug_str);
    let (lines, width) = lines_and_width(&text);
    let out = render(&lines, width, sparkles);
    string_of(&out)
}

/// Outputs a prettier-printed version of the text of a value.
#[derive(Debug, Clone)]
pub struct PrettierPrinter {
    rng: SmallRng,
}

impl PrettierPrinter {
    /// A printer whose seeds come from the operating system's entropy source.
    pub fn new() -> (r: Self) {
        PrettierPrinter { rng: small_rng_from_entropy() }
    }

    /// A printer whose seeds come from a generator seeded with `seed`.
    pub fn new_with_seed(seed: Seed) -> (r: Self) {
        PrettierPrinter { rng: small_rng_from_seed(seed) }
    }

    /// Draws a fresh seed from `rng`.
    pub fn gen_seed(rng: &mut SmallRng) -> (r: Seed) {
        gen_seed(rng)
    }

    /// A displayer of `inner` under the next seed of this printer.
    pub fn print<'a, T>(&mut self, inner: &'a T) -> (r: PrettierPrintDisplayer<'a, T>)
        ensures
            r.inner == inner,
    {
        PrettierPrintDisplayer { seed: gen_seed(&mut self.rng), inner }
    }
}

impl Default for PrettierPrinter {
    fn default() -> (r: Self) {
        PrettierPrinter::new()
    }
}

/// A value together with the seed its decoration is drawn from.
#[derive(Debug, Clone)]
pub struct PrettierPrintDisplayer<'a, T> {
    pub seed: Seed,
    pub inner: &'a T,
}

impl<'a, T> PrettierPrintDisplayer<'a, T> {
    /// `debug_str` decorated with stars drawn from generators derived from
    /// `seed`: each line that starts with spaces gets, with probability 3/5, a
    /// star among them, and each line gets, with probability 3/5, a star after
    /// its end; the glyphs are drawn with weights 15, 3 and 1.
    pub fn output(seed: Seed, debug_str: &str) -> (r: String)
        requires
            decorable(debug_str@),
        ensures
            exists|sps: Seq<LineSparkles>|
                sparkles_fit(debug_str@, sps) && r@ == decorated(debug_str@, sps),
    {
        let text = chars_of(debug_str);
        let (lines, width) = lines_and_width(&text);
        let mut rng = small_rng_from_seed(seed);
        let mut line_rng = small_rng_from_seed(gen_seed(&mut rng));
        let line_dist: Bernoulli = Bernoulli::from_ratio(3, 5).unwrap();
        let picker = new_weighted_picker(vec![15u8, 3, 1]).unwrap();
        let mut star_rng = small_rng_from_seed(gen_seed(&mut rng));
        let ghost views = text_lines(text@);
        let mut sparkles: Vec<LineSparkles> = Vec::new();
        let mut i: usize = 0;
        while i < lines.len()
            invariant
                i <= lines@.len(),
                sparkles@.len() == i,
                lines@.map_values(|l: Vec<char>| l@) == views,
                views == text_lines(text@),
                width == decoration_width(views),
                decorable(text@),
                picker_weight_count(picker) == 3,
                forall|i: int|
                    0 <= i < lines@.len() ==> byte_len(#[trigger] lines@[i]@) <= byte_len(text@),
                forall|j: int|
                    0 <= j < i ==> sparkles_fit_line(views[j], width as nat, #[trigger] sparkles@[j]),
            decreases lines@.len() - i,
        {
            let line = &lines[i];
            assert(line@ == views[i as int]);
            let lead_count = leading_space_count(line);
            let lead = if lead_count > 0 && draw_bernoulli(&line_dist, &mut line_rng) {
                let offset = draw_below(&mut rng, lead_count);
                let glyph = draw_weighted(&picker, &mut star_rng);
                Some(Sparkle { offset, glyph })
            } else {
                None
            };
            let trail = if draw_bernoulli(&line_dist, &mut line_rng) {
                let line_bytes = byte_len_within(line, usize::MAX / 2).unwrap();
                proof {
                    lemma_max_line_bytes(views, i as int);
                }
                let offset = draw_below(&mut rng, width - line_bytes);
                let glyph = draw_weighted(&picker, &mut star_rng);
                Some(Sparkle { offset, glyph })
            } else {
                None
            };
            sparkles.push(LineSparkles { lead, trail });
            i = i + 1;
        }
        let out = render(&lines, width, &sparkles);
        assert(sparkles_fit(text@, sparkles@));
        string_of(&out)
    }
}

impl<'a, T: std::fmt::Debug> PrettierPrintDisplayer<'a, T> {
    /// The pretty `Debug` text of `inner`, decorated under this displayer's
    /// seed; a text too long for its decoration's width to fit in a `usize`
    /// comes back undecorated.
    pub fn to_string(&self) -> (r: String)
        ensures
            exists|text: Seq<char>|
                {
                    ||| !decorable(text) && r@ == text
                    ||| decorable(text) && exists|sps: Seq<LineSparkles>|
                        sparkles_fit(text, sps) && r@ == decorated(text, sps)
                },
    {
        let text = pretty_debug(self.inner);
        let chars = chars_of(text.as_str());
        match byte_len_within(&chars, usize::MAX / 2) {
            Some(_) => {
                let r = Self::output(self.seed, text.as_str());
                assert(decorable(text@));
                r
            },
            None => {
                assert(!decorable(text@));
                text
            },
        }
    }
}

/// Every line takes at most the bytes of the longest one.
pub proof fn lemma_max_line_bytes(lines: Seq<Seq<char>>, i: int)
    requires
        0 <= i < lines.len(),
    ensures
        byte_len(lines[i]) <= max_line_bytes(lines),
    decreases lines.len(),
{
    if i < lines.len() - 1 {
        lemma_max_line_bytes(lines.drop_last(), i);
    }
}

} // verus!
