//! Writes short descriptions of pieces, keeping track of punctuation so that
//! marks are neither doubled nor put before any text.
use vstd::prelude::*;

use crate::pieces::Piece;
use crate::text::push_char;

verus! {

/// The mood of the text so far, meant to choose future connectors.
#[derive(Clone, Copy, Debug, PartialEq, Eq, Structural)]
pub enum Tone {
    Bad,
    Neutral,
    Good,
}

/// What was last put in terms of punctuation.
#[derive(Clone, Copy, Debug, PartialEq, Eq, Structural)]
pub enum LastMark {
    /// A description has just begun: nothing is written yet.
    Began,
    /// Text was written and no mark follows it yet.
    Pending,
    /// This mark was put.
    Placed(char),
}

/// What one character of a template writes, given the character before it: a
/// `?` writes nothing unless it follows a `?`, the name placeholder `n`
/// writes nothing, anything else is copied.
pub open spec fn emitted(t: Seq<char>, k: int) -> Seq<char> {
    if t[k] == '?' {
        if k > 0 && t[k - 1] == '?' {
            seq!['?']
        } else {
            seq![]
        }
    } else if t[k] == 'n' {
        seq![]
    } else {
        seq![t[k]]
    }
}

/// The text a template expands to.
pub open spec fn expand(t: Seq<char>) -> Seq<char>
    decreases t.len(),
{
    if t.len() == 0 {
        seq![]
    } else {
        expand(t.drop_last()) + emitted(t, t.len() - 1)
    }
}

/// The text and last mark after a request to put mark `m`: it is put only
/// when text is waiting for one.
pub open spec fn after_mark(text: Seq<char>, last: LastMark, m: char) -> (Seq<char>, LastMark) {
    if last == LastMark::Pending {
        (text.push(m), LastMark::Placed(m))
    } else {
        (text, last)
    }
}

/// The text and last mark after expanding `template`: writing the first text
/// of a description leaves it waiting for a mark.
pub open spec fn after_sentence(text: Seq<char>, last: LastMark, template: Seq<char>) -> (
    Seq<char>,
    LastMark,
) {
    let added = expand(template);
    (
        text + added,
        if last == LastMark::Began && added.len() > 0 {
            LastMark::Pending
        } else {
            last
        },
    )
}

pub open spec fn backstory_template() -> Seq<char> {
    seq!['?', 'n', ' ', 't', 'h', 'e', ' ', '?', 's', ' ', '?', 'c']
}

/// Every backstory: its template expanded, closed by a period.
pub open spec fn backstory_text() -> Seq<char> {
    expand(backstory_template()).push('.')
}

/// The fixed line that `info` gives for every piece.
pub open spec fn info_text() -> Seq<char> {
    seq!['T', 'o', 'd', 'o', ' ', 's', 't', 'u', 'f', 'f']
}

/// Writes descriptions of the pieces of one collection, one at a time.
pub struct Teller<'a> {
    pub pieces: &'a [Piece],
    pub tone: Tone,
    pub last_mark: LastMark,
    /// The piece being described.
    pub index: u8,
    /// The description written so far.
    pub text: String,
}

impl<'a> Teller<'a> {
    pub fn new(pieces: &'a [Piece]) -> (r: Teller<'a>)
        ensures
            r.pieces == pieces,
            r.tone == Tone::Neutral,
            r.last_mark == LastMark::Placed('.'),
            r.index == 0,
            r.text@ == Seq::<char>::empty(),
    {
        Teller {
            pieces,
            tone: Tone::Neutral,
            last_mark: LastMark::Placed('.'),
            index: 0,
            text: String::new(),
        }
    }

    /// Starts a new description of piece `i`, forgetting the previous one.
    pub fn begin(&mut self, i: u8)
        ensures
            final(self).pieces == old(self).pieces,
            final(self).tone == Tone::Neutral,
            final(self).last_mark == LastMark::Began,
            final(self).index == i,
            final(self).text@ == Seq::<char>::empty(),
    {
        self.last_mark = LastMark::Began;
        self.tone = Tone::Neutral;
        self.index = i;
        self.text = String::new();
    }

    /// Puts mark `m` after the text, unless a mark already follows it or no
    /// text was written yet.
    pub fn mark(&mut self, m: char)
        ensures
            (final(self).text@, final(self).last_mark) == after_mark(
                old(self).text@,
                old(self).last_mark,
                m,
            ),
            final(self).pieces == old(self).pieces,
            final(self).tone == old(self).tone,
            final(self).index == old(self).index,
    {
        if self.last_mark != LastMark::Pending {
            return ;
        }
        push_char(&mut self.text, m);
        self.last_mark = LastMark::Placed(m);
    }

    /// Expands `template` after the text: `??` writes one `?`, a lone `?` and
    /// the name placeholder `n` write nothing, other characters are copied.
    pub fn sentence(&mut self, template: &str, _tone: Tone)
        ensures
            (final(self).text@, final(self).last_mark) == after_sentence(
                old(self).text@,
                old(self).last_mark,
                template@,
            ),
            final(self).pieces == old(self).pieces,
            final(self).tone == old(self).tone,
            final(self).index == old(self).index,
    {
        let n = template.unicode_len();
        let ghost t = template@;
        let mut last_c: char = '\0';
        let mut wrote = false;
        let mut k: usize = 0;
        assert(t.subrange(0, 0) =~= Seq::<char>::empty());
        while k < n
            invariant
                n == t.len(),
                t == template@,
                k <= n,
                k > 0 ==> last_c == t[k - 1],
                k == 0 ==> last_c == '\0',
                wrote == (expand(t.subrange(0, k as int)).len() > 0),
                self.text@ == old(self).text@ + expand(t.subrange(0, k as int)),
                self.last_mark == old(self).last_mark,
                self.pieces == old(self).pieces,
                self.tone == old(self).tone,
                self.index == old(self).index,
            decreases n - k,
        {
            let c = template.get_char(k);
            let ghost before = self.text@;
            if c == '?' {
                if last_c == '?' {
                    push_char(&mut self.text, '?');
                    wrote = true;
                }
            } else if c == 'n' {
            } else {
                push_char(&mut self.text, c);
                wrote = true;
            }
            proof {
                let p = t.subrange(0, k + 1);
                assert(p.drop_last() =~= t.subrange(0, k as int));
                assert(emitted(p, k as int) == emitted(t, k as int));
                assert(self.text@ =~= before + emitted(t, k as int));
                assert(self.text@ =~= old(self).text@ + expand(p));
            }
            last_c = c;
            k += 1;
        }
        assert(t.subrange(0, n as int) =~= t);
        if self.last_mark == LastMark::Began && wrote {
            self.last_mark = LastMark::Pending;
        }
    }

    /// Begins a new description of piece `i` and tells its story, closed by a
    /// period. Nothing of an earlier description is left in it.
    pub fn backstory(&mut self, i: u8) -> (r: String)
        requires
            (i as int) < old(self).pieces@.len(),
        ensures
            r@ == backstory_text(),
            final(self).text@ == r@,
            final(self).last_mark == LastMark::Placed('.'),
            final(self).index == i,
            final(self).tone == Tone::Neutral,
            final(self).pieces == old(self).pieces,
    {
        self.begin(i);
        proof {
            reveal_strlit("?n the ?s ?c");
            assert("?n the ?s ?c"@ =~= backstory_template());
            lemma_backstory_expansion();
        }
        self.sentence("?n the ?s ?c", Tone::Neutral);
        self.mark('.');
        self.text.clone()
    }

    /// Begins a new description of piece `i` and writes its short line,
    /// which is the same for every piece.
    pub fn info(&mut self, i: u8) -> (r: String)
        requires
            (i as int) < old(self).pieces@.len(),
        ensures
            r@ == info_text(),
            final(self).text@ == r@,
            final(self).last_mark == LastMark::Pending,
            final(self).index == i,
            final(self).tone == Tone::Neutral,
            final(self).pieces == old(self).pieces,
    {
        self.begin(i);
        proof {
            reveal_strlit("Todo stuff");
        }
        self.text.append("Todo stuff");
        self.last_mark = LastMark::Pending;
        proof {
            assert(self.text@ =~= info_text());
        }
        self.text.clone()
    }
}

proof fn lemma_backstory_expansion()
    ensures
        expand(backstory_template()) =~= seq![' ', 't', 'h', 'e', ' ', 's', ' ', 'c'],
{
    reveal_with_fuel(expand, 13);
}

/// Once a mark is placed, nothing puts another before the next `begin`: a
/// mark request changes nothing and a sentence leaves the mark in place.
pub proof fn lemma_one_mark_per_description(
    text: Seq<char>,
    c: char,
    m: char,
    template: Seq<char>,
)
    ensures
        after_mark(text, LastMark::Placed(c), m) == (text, LastMark::Placed(c)),
        after_sentence(text, LastMark::Placed(c), template).1 == LastMark::Placed(c),
{
}

/// Requesting a mark twice is requesting it once: the second request, with
/// the same symbol or another, changes nothing.
pub proof fn lemma_mark_idempotent(text: Seq<char>, last: LastMark, m1: char, m2: char)
    ensures
        after_mark(after_mark(text, last, m1).0, after_mark(text, last, m1).1, m2) == after_mark(
            text,
            last,
            m1,
        ),
{
}

/// A backstory ends with exactly one period.
pub proof fn lemma_backstory_single_period()
    ensures
        backstory_text().len() >= 2,
        backstory_text().last() == '.',
        backstory_text()[backstory_text().len() - 2] != '.',
{
    lemma_backstory_expansion();
}

} // verus!
