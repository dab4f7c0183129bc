//! Coloring leaves the text as it is: without its escape sequences, what a
//! printer writes for a text without escape characters is that text.

use crate::paint::{
    escape_free, is_whole, lemma_plain_join, lemma_plain_of_free, lemma_plain_of_painted,
    lemma_rgb_code, m_free, painted, plain, rgb_code,
};
use vstd::prelude::*;

verus! {

proof fn lemma_init(t: Seq<char>)
    requires
        escape_free(t),
        t.len() > 0,
    ensures
        escape_free(t.drop_last()),
        t.last() != '\x1b',
        t == t.drop_last().push(t.last()),
{
    let init = t.drop_last();
    assert forall|i: int| 0 <= i < init.len() implies (#[trigger] init[i]) != '\x1b' by {
        assert(init[i] == t[i]);
    }
    assert(t.last() == t[t.len() - 1]);
    assert(t =~= init.push(t.last()));
}

proof fn lemma_basic_codes()
    ensures
        m_free("31"@),
        m_free("32"@),
        m_free("33"@),
        m_free("34"@),
        m_free("35"@),
{
    reveal_strlit("31");
    reveal_strlit("32");
    reveal_strlit("33");
    reveal_strlit("34");
    reveal_strlit("35");
}

/// Written behind a whole text, a painted text adds its own text.
proof fn lemma_add_painted(out: Seq<char>, code: Seq<char>, w: Seq<char>)
    requires
        is_whole(out),
        m_free(code),
        escape_free(w),
    ensures
        is_whole(out + painted(code, w)),
        plain(out + painted(code, w)) == plain(out) + w,
{
    lemma_plain_of_painted(code, w);
    lemma_plain_join(out, painted(code, w));
}

/// Written behind a whole text, a text without escape characters adds
/// itself.
proof fn lemma_add_free(out: Seq<char>, w: Seq<char>)
    requires
        is_whole(out),
        escape_free(w),
    ensures
        is_whole(out + w),
        plain(out + w) == plain(out) + w,
{
    lemma_plain_of_free(w);
    lemma_plain_join(out, w);
}

proof fn lemma_word_push(w: Seq<char>, c: char)
    requires
        escape_free(w),
        c != '\x1b',
    ensures
        escape_free(w.push(c)),
        escape_free(seq![c]),
{
    let all = w.push(c);
    assert forall|i: int| 0 <= i < all.len() implies (#[trigger] all[i]) != '\x1b' by {
        if i < w.len() {
            assert(all[i] == w[i]);
        }
    }
}

// ---------------------------------------------------------------------------
// The printer in three colors
// ---------------------------------------------------------------------------

proof fn lemma_simple_flushed(st: crate::simple_colored::Scan)
    requires
        is_whole(st.out),
        escape_free(st.word),
    ensures
        is_whole(crate::simple_colored::flushed(st)),
        plain(crate::simple_colored::flushed(st)) == plain(st.out) + st.word,
{
    lemma_basic_codes();
    if st.word.len() == 0 {
        assert(plain(st.out) + st.word =~= plain(st.out));
    } else if st.lhs {
        lemma_add_painted(st.out, "31"@, st.word);
    } else {
        lemma_add_painted(st.out, "34"@, st.word);
    }
}

proof fn lemma_simple_scan(t: Seq<char>)
    requires
        escape_free(t),
    ensures
        is_whole(crate::simple_colored::scan(t).out),
        escape_free(crate::simple_colored::scan(t).word),
        plain(crate::simple_colored::scan(t).out) + crate::simple_colored::scan(t).word == t,
    decreases t.len(),
{
    if t.len() == 0 {
        lemma_plain_of_free(Seq::<char>::empty());
        assert(plain(Seq::<char>::empty()) + Seq::<char>::empty() =~= t);
    } else {
        let init = t.drop_last();
        let c = t.last();
        lemma_init(t);
        lemma_simple_scan(init);
        let st = crate::simple_colored::scan(init);
        lemma_simple_flushed(st);
        lemma_word_push(st.word, c);
        lemma_basic_codes();
        let f = crate::simple_colored::flushed(st);
        let next = crate::simple_colored::step(st, c);
        if crate::simple_colored::is_operator(c) {
            lemma_add_painted(f, "33"@, seq![c]);
            assert(plain(next.out) + next.word =~= init.push(c));
        } else if c == '(' || c == ')' {
            lemma_add_painted(f, "34"@, seq![c]);
            assert(plain(next.out) + next.word =~= init.push(c));
        } else if c == ' ' {
            lemma_add_free(f, seq![c]);
            assert(f.push(' ') =~= f + seq![c]);
            assert(plain(next.out) + next.word =~= init.push(c));
        } else {
            assert(plain(next.out) + next.word =~= init.push(c));
        }
    }
}

/// Without its escape sequences, the text that the printer in three colors
/// writes for a text is that text.
pub proof fn simply_colored_keeps_the_text(t: Seq<char>)
    requires
        escape_free(t),
    ensures
        plain(crate::simple_colored::simply_colored(t)) == t,
{
    lemma_simple_scan(t);
    lemma_simple_flushed(crate::simple_colored::scan(t));
}

// ---------------------------------------------------------------------------
// The printer with groups
// ---------------------------------------------------------------------------

proof fn lemma_grouped_flushed(st: crate::colored_pretty::Scan)
    requires
        is_whole(st.out),
        escape_free(st.word),
    ensures
        is_whole(crate::colored_pretty::flushed(st)),
        plain(crate::colored_pretty::flushed(st)) == plain(st.out) + st.word,
{
    lemma_basic_codes();
    if st.word.len() == 0 {
        assert(plain(st.out) + st.word =~= plain(st.out));
    } else {
        lemma_add_painted(st.out, "31"@, st.word);
        lemma_add_painted(st.out, "32"@, st.word);
        lemma_add_painted(st.out, "35"@, st.word);
        lemma_add_free(st.out, st.word);
    }
}

proof fn lemma_grouped_scan(t: Seq<char>)
    requires
        escape_free(t),
    ensures
        is_whole(crate::colored_pretty::scan(t).out),
        escape_free(crate::colored_pretty::scan(t).word),
        plain(crate::colored_pretty::scan(t).out) + crate::colored_pretty::scan(t).word == t,
    decreases t.len(),
{
    if t.len() == 0 {
        lemma_plain_of_free(Seq::<char>::empty());
        assert(plain(Seq::<char>::empty()) + Seq::<char>::empty() =~= t);
    } else {
        let init = t.drop_last();
        let c = t.last();
        lemma_init(t);
        lemma_grouped_scan(init);
        let st = crate::colored_pretty::scan(init);
        lemma_grouped_flushed(st);
        lemma_word_push(st.word, c);
        lemma_basic_codes();
        let f = crate::colored_pretty::flushed(st);
        let next = crate::colored_pretty::step(st, c);
        if crate::colored_pretty::is_operator(c) {
            lemma_add_painted(f, "33"@, seq![c]);
            assert(plain(next.out) + next.word =~= init.push(c));
        } else if c == '(' || c == ')' || c == ' ' {
            lemma_add_painted(f, "32"@, seq![c]);
            lemma_add_free(f, seq![c]);
            assert(f.push(c) =~= f + seq![c]);
            assert(plain(next.out) + next.word =~= init.push(c));
        } else {
            assert(plain(next.out) + next.word =~= init.push(c));
        }
    }
}

/// Without its escape sequences, the text that the printer with groups
/// writes for a text is that text.
pub proof fn grouped_colors_keep_the_text(t: Seq<char>)
    requires
        escape_free(t),
    ensures
        plain(crate::colored_pretty::colored_formula(t)) == t,
{
    lemma_grouped_scan(t);
    lemma_grouped_flushed(crate::colored_pretty::scan(t));
}

// ---------------------------------------------------------------------------
// The printer in RGB colors
// ---------------------------------------------------------------------------

proof fn lemma_rgb_flushed(st: crate::color::Scan)
    requires
        is_whole(st.out),
        escape_free(st.word),
    ensures
        is_whole(crate::color::flushed(st)),
        plain(crate::color::flushed(st)) == plain(st.out) + st.word,
{
    if st.word.len() == 0 {
        assert(plain(st.out) + st.word =~= plain(st.out));
    } else {
        lemma_rgb_code(163, 190, 140);
        lemma_rgb_code(235, 203, 139);
        lemma_rgb_code(208, 135, 112);
        lemma_add_painted(st.out, rgb_code(163, 190, 140), st.word);
        lemma_add_painted(st.out, rgb_code(235, 203, 139), st.word);
        lemma_add_painted(st.out, rgb_code(208, 135, 112), st.word);
    }
}

proof fn lemma_rgb_scan(t: Seq<char>)
    requires
        escape_free(t),
    ensures
        is_whole(crate::color::scan(t).out),
        escape_free(crate::color::scan(t).word),
        plain(crate::color::scan(t).out) + crate::color::scan(t).word == t,
    decreases t.len(),
{
    if t.len() == 0 {
        lemma_plain_of_free(Seq::<char>::empty());
        assert(plain(Seq::<char>::empty()) + Seq::<char>::empty() =~= t);
    } else {
        let init = t.drop_last();
        let c = t.last();
        lemma_init(t);
        lemma_rgb_scan(init);
        let st = crate::color::scan(init);
        lemma_rgb_flushed(st);
        lemma_word_push(st.word, c);
        let f = crate::color::flushed(st);
        let next = crate::color::step(st, c);
        if crate::color::is_mark(c) {
            lemma_rgb_code(208, 135, 112);
            lemma_add_painted(f, rgb_code(208, 135, 112), seq![c]);
            assert(plain(next.out) + next.word =~= init.push(c));
        } else if c == ' ' {
            lemma_add_free(f, seq![c]);
            assert(f.push(' ') =~= f + seq![c]);
            assert(plain(next.out) + next.word =~= init.push(c));
        } else {
            assert(plain(next.out) + next.word =~= init.push(c));
        }
    }
}

/// Without its escape sequences, the text that the printer in RGB colors
/// writes for a text is that text.
pub proof fn rgb_colors_keep_the_text(t: Seq<char>)
    requires
        escape_free(t),
    ensures
        plain(crate::color::colored_formula(t)) == t,
{
    lemma_rgb_scan(t);
    lemma_rgb_flushed(crate::color::scan(t));
}

} // verus!
