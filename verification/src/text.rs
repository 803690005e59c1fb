//! Display-width accounting for text that may carry ANSI styling sequences.
//!
//! Styling escape sequences (an escape character up to and including the
//! terminating `m`) occupy no columns on a terminal, so width measurement and
//! truncation must skip them: alignment and width caps go by the characters a
//! terminal actually prints.

use vstd::prelude::*;

verus! {

/// The characters of `s` that a terminal prints, processing from the state
/// `esc` (true while inside a styling sequence, which ends at `m`).
pub open spec fn strip_state(s: Seq<char>, esc: bool) -> Seq<char>
    decreases s.len(),
{
    if s.len() == 0 {
        Seq::empty()
    } else if esc {
        strip_state(s.drop_first(), s.first() != 'm')
    } else if s.first() == '\u{1b}' {
        strip_state(s.drop_first(), true)
    } else {
        seq![s.first()] + strip_state(s.drop_first(), false)
    }
}

/// The printable characters of `s`: everything outside styling sequences.
pub open spec fn visible(s: Seq<char>) -> Seq<char> {
    strip_state(s, false)
}

/// How many columns `s` occupies on the terminal.
pub open spec fn visible_width(s: Seq<char>) -> nat {
    visible(s).len()
}

/// The escape state after processing all of `s` from the state `esc`.
pub open spec fn end_state(s: Seq<char>, esc: bool) -> bool
    decreases s.len(),
{
    if s.len() == 0 {
        esc
    } else if esc {
        end_state(s.drop_first(), s.first() != 'm')
    } else if s.first() == '\u{1b}' {
        end_state(s.drop_first(), true)
    } else {
        end_state(s.drop_first(), false)
    }
}

/// Every styling sequence that `s` opens is terminated within `s`.
/// Concatenating such pieces keeps their printable characters independent.
pub open spec fn esc_closed(s: Seq<char>) -> bool {
    !end_state(s, false)
}

/// `s` truncated to at most `budget` printable characters, processed from the
/// state `esc`.  Styling sequences are kept even past the cut, so a trailing
/// style reset survives truncation.
pub open spec fn clip_state(s: Seq<char>, esc: bool, budget: nat) -> Seq<char>
    decreases s.len(),
{
    if s.len() == 0 {
        Seq::empty()
    } else if esc {
        seq![s.first()] + clip_state(s.drop_first(), s.first() != 'm', budget)
    } else if s.first() == '\u{1b}' {
        seq![s.first()] + clip_state(s.drop_first(), true, budget)
    } else if budget > 0 {
        seq![s.first()] + clip_state(s.drop_first(), false, (budget - 1) as nat)
    } else {
        clip_state(s.drop_first(), false, 0)
    }
}

/// `s` truncated to at most `budget` printable characters.
pub open spec fn clip(s: Seq<char>, budget: nat) -> Seq<char> {
    clip_state(s, false, budget)
}

/// A run of `n` spaces.
pub open spec fn spaces(n: nat) -> Seq<char> {
    Seq::new(n, |i: int| ' ')
}

/// Splitting a sequence splits its printable characters at the matching
/// escape state.
pub proof fn lemma_strip_concat(a: Seq<char>, b: Seq<char>, esc: bool)
    ensures
        strip_state(a + b, esc) == strip_state(a, esc) + strip_state(b, end_state(a, esc)),
    decreases a.len(),
{
    if a.len() == 0 {
        assert(a + b =~= b);
        assert(strip_state(a, esc) + strip_state(b, esc) =~= strip_state(b, esc));
    } else {
        assert((a + b).first() == a.first());
        assert((a + b).drop_first() =~= a.drop_first() + b);
        if esc {
            lemma_strip_concat(a.drop_first(), b, a.first() != 'm');
        } else if a.first() == '\u{1b}' {
            lemma_strip_concat(a.drop_first(), b, true);
        } else {
            lemma_strip_concat(a.drop_first(), b, false);
            assert(strip_state(a + b, esc) =~= strip_state(a, esc) + strip_state(
                b,
                end_state(a, esc),
            ));
        }
    }
}

/// Splitting a sequence chains its escape states.
pub proof fn lemma_end_state_concat(a: Seq<char>, b: Seq<char>, esc: bool)
    ensures
        end_state(a + b, esc) == end_state(b, end_state(a, esc)),
    decreases a.len(),
{
    if a.len() == 0 {
        assert(a + b =~= b);
    } else {
        assert((a + b).drop_first() =~= a.drop_first() + b);
        if esc {
            lemma_end_state_concat(a.drop_first(), b, a.first() != 'm');
        } else if a.first() == '\u{1b}' {
            lemma_end_state_concat(a.drop_first(), b, true);
        } else {
            lemma_end_state_concat(a.drop_first(), b, false);
        }
    }
}

/// The printable characters of two closed pieces concatenate.
pub proof fn lemma_visible_concat(a: Seq<char>, b: Seq<char>)
    requires
        esc_closed(a),
    ensures
        visible(a + b) == visible(a) + visible(b),
        esc_closed(a + b) == esc_closed(b),
{
    lemma_strip_concat(a, b, false);
    lemma_end_state_concat(a, b, false);
}

/// `s` holds no escape character at all.
pub open spec fn esc_free(s: Seq<char>) -> bool {
    forall|i: int| 0 <= i < s.len() ==> s[i] != '\u{1b}'
}

/// Putting two escape-free pieces together keeps them escape-free.
pub proof fn lemma_esc_free_concat(a: Seq<char>, b: Seq<char>)
    requires
        esc_free(a),
        esc_free(b),
    ensures
        esc_free(a + b),
{
    assert forall|i: int| 0 <= i < (a + b).len() implies (a + b)[i] != '\u{1b}' by {
        if i < a.len() {
            assert((a + b)[i] == a[i]);
        } else {
            assert((a + b)[i] == b[i - a.len()]);
        }
    }
}

/// A sequence without escape characters prints as itself.
pub proof fn lemma_plain_visible(s: Seq<char>)
    requires
        esc_free(s),
    ensures
        visible(s) == s,
        esc_closed(s),
    decreases s.len(),
{
    if s.len() == 0 {
        assert(visible(s) =~= s);
    } else {
        assert(esc_free(s.drop_first()));
        lemma_plain_visible(s.drop_first());
        assert(seq![s.first()] + s.drop_first() =~= s);
    }
}

/// A terminal never prints more characters than the text holds.
pub proof fn lemma_visible_le_len(s: Seq<char>, esc: bool)
    ensures
        strip_state(s, esc).len() <= s.len(),
    decreases s.len(),
{
    if s.len() == 0 {
    } else if esc {
        lemma_visible_le_len(s.drop_first(), s.first() != 'm');
    } else if s.first() == '\u{1b}' {
        lemma_visible_le_len(s.drop_first(), true);
    } else {
        lemma_visible_le_len(s.drop_first(), false);
    }
}

/// Truncation cuts the printable width to the budget and no further.
pub proof fn lemma_clip_width(s: Seq<char>, esc: bool, budget: nat)
    ensures
        strip_state(clip_state(s, esc, budget), esc).len() == if strip_state(s, esc).len()
            <= budget {
            strip_state(s, esc).len()
        } else {
            budget
        },
    decreases s.len(),
{
    if s.len() == 0 {
    } else if esc {
        lemma_clip_width(s.drop_first(), s.first() != 'm', budget);
        assert(clip_state(s, esc, budget).drop_first() =~= clip_state(
            s.drop_first(),
            s.first() != 'm',
            budget,
        ));
    } else if s.first() == '\u{1b}' {
        lemma_clip_width(s.drop_first(), true, budget);
        assert(clip_state(s, esc, budget).drop_first() =~= clip_state(
            s.drop_first(),
            true,
            budget,
        ));
    } else if budget > 0 {
        lemma_clip_width(s.drop_first(), false, (budget - 1) as nat);
        assert(clip_state(s, esc, budget).drop_first() =~= clip_state(
            s.drop_first(),
            false,
            (budget - 1) as nat,
        ));
    } else {
        lemma_clip_width(s.drop_first(), false, 0);
    }
}

/// A text already within the budget is not changed by truncation.
pub proof fn lemma_clip_noop(s: Seq<char>, esc: bool, budget: nat)
    requires
        strip_state(s, esc).len() <= budget,
    ensures
        clip_state(s, esc, budget) == s,
    decreases s.len(),
{
    if s.len() == 0 {
        assert(clip_state(s, esc, budget) =~= s);
    } else if esc {
        lemma_clip_noop(s.drop_first(), s.first() != 'm', budget);
        assert(clip_state(s, esc, budget) =~= s);
    } else if s.first() == '\u{1b}' {
        lemma_clip_noop(s.drop_first(), true, budget);
        assert(clip_state(s, esc, budget) =~= s);
    } else {
        lemma_clip_noop(s.drop_first(), false, (budget - 1) as nat);
        assert(clip_state(s, esc, budget) =~= s);
    }
}

/// Truncation neither opens nor closes styling sequences.
pub proof fn lemma_clip_end_state(s: Seq<char>, esc: bool, budget: nat)
    ensures
        end_state(clip_state(s, esc, budget), esc) == end_state(s, esc),
    decreases s.len(),
{
    if s.len() == 0 {
    } else if esc {
        lemma_clip_end_state(s.drop_first(), s.first() != 'm', budget);
        assert(clip_state(s, esc, budget).drop_first() =~= clip_state(
            s.drop_first(),
            s.first() != 'm',
            budget,
        ));
    } else if s.first() == '\u{1b}' {
        lemma_clip_end_state(s.drop_first(), true, budget);
        assert(clip_state(s, esc, budget).drop_first() =~= clip_state(
            s.drop_first(),
            true,
            budget,
        ));
    } else if budget > 0 {
        lemma_clip_end_state(s.drop_first(), false, (budget - 1) as nat);
        assert(clip_state(s, esc, budget).drop_first() =~= clip_state(
            s.drop_first(),
            false,
            (budget - 1) as nat,
        ));
    } else {
        lemma_clip_end_state(s.drop_first(), false, 0);
    }
}

/// Spaces print as themselves.
pub proof fn lemma_spaces_visible(n: nat)
    ensures
        visible(spaces(n)) == spaces(n),
        esc_closed(spaces(n)),
{
    lemma_plain_visible(spaces(n));
}

/// Number of columns `s` occupies on a terminal, skipping styling sequences.
pub fn display_width(s: &str) -> (w: usize)
    ensures
        w == visible_width(s@),
{
    let n: usize = s.unicode_len();
    let mut i: usize = 0;
    let mut esc: bool = false;
    let mut w: usize = 0;
    proof {
        assert(s@.skip(0) =~= s@);
    }
    while i < n
        invariant
            0 <= i <= n,
            n == s@.len(),
            w <= i,
            visible_width(s@) == w + strip_state(s@.skip(i as int), esc).len(),
        decreases n - i,
    {
        let c = s.get_char(i);
        proof {
            assert(s@.skip(i as int).first() == s@[i as int]);
            assert(s@.skip(i as int).drop_first() =~= s@.skip(i as int + 1));
        }
        if esc {
            esc = c != 'm';
        } else if c == '\u{1b}' {
            esc = true;
        } else {
            w = w + 1;
        }
        i = i + 1;
    }
    proof {
        assert(s@.skip(n as int) =~= Seq::<char>::empty());
    }
    w
}

/// `s` cut down to at most `budget` printable characters; styling sequences
/// are preserved in full.
pub fn truncate_to_width(s: &str, budget: usize) -> (r: String)
    ensures
        r@ == clip(s@, budget as nat),
        visible_width(r@) == if visible_width(s@) <= budget {
            visible_width(s@)
        } else {
            budget as nat
        },
        visible_width(s@) <= budget ==> r@ == s@,
        esc_closed(s@) ==> esc_closed(r@),
{
    let n: usize = s.unicode_len();
    let mut i: usize = 0;
    let mut esc: bool = false;
    let mut rem: usize = budget;
    let mut out = String::new();
    proof {
        assert(s@.skip(0) =~= s@);
        assert(Seq::<char>::empty() + clip(s@, budget as nat) =~= clip(s@, budget as nat));
    }
    while i < n
        invariant
            0 <= i <= n,
            n == s@.len(),
            rem <= budget,
            clip(s@, budget as nat) == out@ + clip_state(s@.skip(i as int), esc, rem as nat),
        decreases n - i,
    {
        let c = s.get_char(i);
        proof {
            assert(s@.skip(i as int).first() == s@[i as int]);
            assert(s@.skip(i as int).drop_first() =~= s@.skip(i as int + 1));
        }
        if esc {
            let piece = s.substring_char(i, i + 1);
            proof {
                assert(piece@ =~= seq![s@[i as int]]);
            }
            out.append(piece);
            esc = c != 'm';
        } else if c == '\u{1b}' {
            let piece = s.substring_char(i, i + 1);
            proof {
                assert(piece@ =~= seq![s@[i as int]]);
            }
            out.append(piece);
            esc = true;
        } else if rem > 0 {
            let piece = s.substring_char(i, i + 1);
            proof {
                assert(piece@ =~= seq![s@[i as int]]);
            }
            out.append(piece);
            rem = rem - 1;
        }
        proof {
            assert(clip(s@, budget as nat) == out@ + clip_state(
                s@.skip(i as int + 1),
                esc,
                rem as nat,
            ));
        }
        i = i + 1;
    }
    proof {
        assert(s@.skip(n as int) =~= Seq::<char>::empty());
        assert(out@ =~= clip(s@, budget as nat));
        lemma_clip_width(s@, false, budget as nat);
        if visible_width(s@) <= budget {
            lemma_clip_noop(s@, false, budget as nat);
        }
        lemma_clip_end_state(s@, false, budget as nat);
    }
    out
}

/// A string of `n` spaces.
pub fn make_spaces(n: usize) -> (r: String)
    ensures
        r@ == spaces(n as nat),
{
    let mut out = String::new();
    let mut i: usize = 0;
    proof {
        reveal_strlit(" ");
    }
    while i < n
        invariant
            0 <= i <= n,
            out@ =~= spaces(i as nat),
            " "@ =~= seq![' '],
        decreases n - i,
    {
        out.append(" ");
        proof {
            assert(spaces(i as nat) + seq![' '] =~= spaces(i as nat + 1));
        }
        i = i + 1;
    }
    out
}

} // verus!
