//! What is done to the text of a message before it is read as a command:
//! mentions are cut out, the white space between words becomes one blank,
//! and the text is put in lower case.
use crate::text::{is_digit, word_views, words};
use regex::Regex;
use vstd::prelude::*;

verus! {

/// Whether the `\d` of the `regex` crate matches the character: whether it
/// is a decimal digit of some script.
pub uninterp spec fn digit_class(c: char) -> bool;

/// Whether the character is a decimal digit. Of the ASCII characters these
/// are `0` to `9`; beyond ASCII they are the characters of the digit class
/// of `regex`.
pub open spec fn decimal_digit(c: char) -> bool {
    if (c as u32) < 128 {
        is_digit(c)
    } else {
        digit_class(c)
    }
}

/// Whether the text holds decimal digits only.
pub open spec fn all_decimal(s: Seq<char>) -> bool {
    forall|k: int| 0 <= k < s.len() ==> decimal_digit(#[trigger] s[k])
}

/// A `regex::Regex` of the pattern `^\d$`, matched against the character
/// alone.
#[verifier::external_body]
fn in_digit_class(c: char) -> (r: bool)
    ensures
        r == digit_class(c),
{
    match Regex::new(r"^\d$") {
        Ok(re) => re.is_match(c.encode_utf8(&mut [0u8; 4])),
        Err(_) => false,
    }
}

/// Whether the character is a decimal digit.
pub fn is_decimal_digit(c: char) -> (r: bool)
    ensures
        r == decimal_digit(c),
{
    if (c as u32) < 128 {
        c >= '0' && c <= '9'
    } else {
        in_digit_class(c)
    }
}

/// How many decimal digits stand in `text` from position `from` on, one
/// directly after the other.
pub open spec fn digit_run(text: Seq<char>, from: int) -> nat
    decreases text.len() - from,
{
    if 0 <= from < text.len() && decimal_digit(text[from]) {
        1 + digit_run(text, from + 1)
    } else {
        0
    }
}

/// The length of what opens a mention at position `i`: `<@`, `<@!`,
/// `<@&` or `<#`; 0 where none of them stands there.
pub open spec fn marker_len(text: Seq<char>, i: int) -> int {
    if 0 <= i && i + 1 < text.len() && text[i] == '<' {
        if text[i + 1] == '@' {
            if i + 2 < text.len() && (text[i + 2] == '!' || text[i + 2] == '&') {
                3
            } else {
                2
            }
        } else if text[i + 1] == '#' {
            2
        } else {
            0
        }
    } else {
        0
    }
}

/// The length of the mention that begins at position `i`, or 0 where none
/// begins there. A mention is `<@id>`, `<@!id>`, `<@&id>` or `<#id>`,
/// the id being one or more decimal digits.
pub open spec fn mention_len(text: Seq<char>, i: int) -> int {
    let m = marker_len(text, i);
    let d = digit_run(text, i + m) as int;
    if m > 0 && d > 0 && i + m + d < text.len() && text[i + m + d] == '>' {
        m + d + 1
    } else {
        0
    }
}

/// The text from position `from` on with a blank in place of every
/// mention, the mentions being taken from left to right.
pub open spec fn without_mentions(text: Seq<char>, from: int) -> Seq<char>
    decreases text.len() - from,
{
    if from < 0 || from >= text.len() {
        Seq::empty()
    } else {
        let n = mention_len(text, from);
        if n > 0 {
            seq![' '] + without_mentions(text, from + n)
        } else {
            seq![text[from]] + without_mentions(text, from + 1)
        }
    }
}

/// Whether `pattern`, which is not empty, stands in `text` at position
/// `i`.
pub open spec fn occurs_at(text: Seq<char>, pattern: Seq<char>, i: int) -> bool {
    &&& pattern.len() > 0
    &&& 0 <= i
    &&& i + pattern.len() <= text.len()
    &&& text.subrange(i, i + pattern.len()) == pattern
}

/// The text from position `from` on with a blank in place of every
/// occurrence of `pattern`, the occurrences being taken from left to
/// right.
pub open spec fn blanked(text: Seq<char>, pattern: Seq<char>, from: int) -> Seq<char>
    decreases text.len() - from,
{
    if from < 0 || from >= text.len() {
        Seq::empty()
    } else if occurs_at(text, pattern, from) {
        seq![' '] + blanked(text, pattern, from + pattern.len())
    } else {
        seq![text[from]] + blanked(text, pattern, from + 1)
    }
}

/// The words with one blank between two of them.
pub open spec fn joined(ws: Seq<Seq<char>>) -> Seq<char>
    decreases ws.len(),
{
    if ws.len() == 0 {
        Seq::empty()
    } else if ws.len() == 1 {
        ws[0]
    } else {
        joined(ws.drop_last()) + seq![' '] + ws.last()
    }
}

/// The mention of the user `id` without and with an exclamation mark:
/// `<@id>` and `<@!id>`.
pub open spec fn user_mention(id: Seq<char>, nick: bool) -> Seq<char> {
    (if nick {
        seq!['<', '@', '!']
    } else {
        seq!['<', '@']
    }) + id + seq!['>']
}

/// The text of a message made ready for reading, up to its case: every
/// mention is cut out, then what spells a mention of the user `bot_id`
/// whatever that id looks like, and the words that are left stand with
/// one blank between them.
pub open spec fn cleaned(content: Seq<char>, bot_id: Seq<char>) -> Seq<char> {
    let a = without_mentions(content, 0);
    let b = blanked(a, user_mention(bot_id, false), 0);
    let c = blanked(b, user_mention(bot_id, true), 0);
    joined(words(c))
}

/// What `str::to_lowercase` returns for the text.
pub uninterp spec fn lowercased(text: Seq<char>) -> Seq<char>;

/// Whether a character is an ASCII character other than a capital letter.
pub open spec fn plain_char(c: char) -> bool {
    (c as u32) < 128 && !('A' <= c <= 'Z')
}

/// Whether the text holds ASCII characters only and no capital letter.
pub open spec fn plain_lower(text: Seq<char>) -> bool {
    forall|k: int| 0 <= k < text.len() ==> plain_char(#[trigger] text[k])
}

/// `str::to_lowercase` on the text, from and to characters. The contract
/// names the result and adds what holds of ASCII text without capital
/// letters: it has no lower-case equivalent but itself.
#[verifier::external_body]
fn lowercase(text: &Vec<char>) -> (r: Vec<char>)
    ensures
        r@ == lowercased(text@),
        plain_lower(text@) ==> r@ == text@,
{
    text.iter().collect::<String>().to_lowercase().chars().collect()
}

/// The length of the run of decimal digits that begins at `from`.
fn count_digits(text: &Vec<char>, from: usize) -> (n: usize)
    requires
        from <= text.len(),
    ensures
        n == digit_run(text@, from as int),
        from + n <= text.len(),
{
    let mut n: usize = 0;
    while from + n < text.len() && is_decimal_digit(text[from + n])
        invariant
            from + n <= text.len(),
            digit_run(text@, from as int) == n + digit_run(text@, from + n),
        decreases text.len() - from - n,
    {
        n += 1;
    }
    n
}

/// The length of the mention that begins at position `i`, or 0.
fn mention_at(text: &Vec<char>, i: usize) -> (n: usize)
    requires
        i < text.len(),
    ensures
        n == mention_len(text@, i as int),
        i + n <= text.len(),
{
    let len = text.len();
    if !(i + 1 < len && text[i] == '<') {
        return 0;
    }
    let m: usize = if text[i + 1] == '@' {
        if i + 2 < len && (text[i + 2] == '!' || text[i + 2] == '&') {
            3
        } else {
            2
        }
    } else if text[i + 1] == '#' {
        2
    } else {
        0
    };
    if m == 0 || i + m > len {
        assert(i + m > len ==> digit_run(text@, i + m) == 0);
        return 0;
    }
    let d = count_digits(text, i + m);
    if d > 0 && i + m + d < len && text[i + m + d] == '>' {
        m + d + 1
    } else {
        0
    }
}

/// The text with a blank in place of every mention.
pub fn strip_mentions(text: &Vec<char>) -> (out: Vec<char>)
    ensures
        out@ == without_mentions(text@, 0),
{
    let mut out: Vec<char> = Vec::new();
    let mut i: usize = 0;
    assert(out@ + without_mentions(text@, 0) =~= without_mentions(text@, 0));
    while i < text.len()
        invariant
            i <= text.len(),
            out@ + without_mentions(text@, i as int) == without_mentions(text@, 0),
        decreases text.len() - i,
    {
        let ghost before = out@;
        let n = mention_at(text, i);
        if n > 0 {
            out.push(' ');
            assert((before + seq![' ']) + without_mentions(text@, i + n) =~= before + (seq![' ']
                + without_mentions(text@, i + n)));
            i += n;
        } else {
            out.push(text[i]);
            assert((before + seq![text@[i as int]]) + without_mentions(text@, i + 1) =~= before + (
            seq![text@[i as int]] + without_mentions(text@, i + 1)));
            i += 1;
        }
    }
    assert(out@ + Seq::<char>::empty() =~= out@);
    out
}

/// Whether `pattern` stands in `text` at position `i`.
fn stands_at(text: &Vec<char>, pattern: &Vec<char>, i: usize) -> (r: bool)
    requires
        i <= text.len(),
    ensures
        r == occurs_at(text@, pattern@, i as int),
{
    let n = pattern.len();
    if n == 0 || n > text.len() - i {
        return false;
    }
    let mut k: usize = 0;
    while k < n
        invariant
            k <= n,
            n == pattern.len(),
            i + n <= text.len(),
            forall|j: int| 0 <= j < k ==> text@[i + j] == pattern@[j],
        decreases n - k,
    {
        if text[i + k] != pattern[k] {
            assert(text@.subrange(i as int, i + n)[k as int] == text@[i + k]);
            return false;
        }
        k += 1;
    }
    assert(text@.subrange(i as int, i + n) =~= pattern@);
    true
}

/// The text with a blank in place of every occurrence of `pattern`.
pub fn blank_out(text: &Vec<char>, pattern: &Vec<char>) -> (out: Vec<char>)
    ensures
        out@ == blanked(text@, pattern@, 0),
{
    let mut out: Vec<char> = Vec::new();
    let mut i: usize = 0;
    assert(out@ + blanked(text@, pattern@, 0) =~= blanked(text@, pattern@, 0));
    while i < text.len()
        invariant
            i <= text.len(),
            out@ + blanked(text@, pattern@, i as int) == blanked(text@, pattern@, 0),
        decreases text.len() - i,
    {
        let ghost before = out@;
        if stands_at(text, pattern, i) {
            out.push(' ');
            assert((before + seq![' ']) + blanked(text@, pattern@, i + pattern@.len()) =~= before
                + (seq![' '] + blanked(text@, pattern@, i + pattern@.len())));
            i += pattern.len();
        } else {
            out.push(text[i]);
            assert((before + seq![text@[i as int]]) + blanked(text@, pattern@, i + 1) =~= before
                + (seq![text@[i as int]] + blanked(text@, pattern@, i + 1)));
            i += 1;
        }
    }
    assert(out@ + Seq::<char>::empty() =~= out@);
    out
}

/// The words with one blank between two of them.
pub fn join_words(ws: &Vec<Vec<char>>) -> (out: Vec<char>)
    ensures
        out@ == joined(word_views(ws@)),
{
    let ghost all = word_views(ws@);
    let mut out: Vec<char> = Vec::new();
    let mut i: usize = 0;
    assert(all.take(0) =~= Seq::<Seq<char>>::empty());
    while i < ws.len()
        invariant
            i <= ws.len(),
            all == word_views(ws@),
            out@ == joined(all.take(i as int)),
        decreases ws.len() - i,
    {
        let ghost before = out@;
        assert(all.take(i + 1).drop_last() =~= all.take(i as int));
        assert(all.take(i + 1).last() == ws@[i as int]@);
        if i > 0 {
            out.push(' ');
        }
        let word = &ws[i];
        let mut k: usize = 0;
        let ghost start = out@;
        while k < word.len()
            invariant
                k <= word.len(),
                out@ == start + word@.take(k as int),
            decreases word.len() - k,
        {
            out.push(word[k]);
            k += 1;
            assert(out@ =~= start + word@.take(k as int));
        }
        assert(word@.take(word.len() as int) =~= word@);
        assert(out@ =~= joined(all.take(i + 1))) by {
            if i == 0 {
                assert(start =~= Seq::<char>::empty());
                assert(all.take(1)[0] == word@);
            }
        }
        i += 1;
    }
    assert(all.take(ws.len() as int) =~= all);
    out
}

/// The mention of the user `id`, without or with an exclamation mark.
fn mention_of(id: &Vec<char>, nick: bool) -> (out: Vec<char>)
    ensures
        out@ == user_mention(id@, nick),
{
    let mut out: Vec<char> = Vec::new();
    out.push('<');
    out.push('@');
    if nick {
        out.push('!');
    }
    let ghost start = out@;
    let mut k: usize = 0;
    while k < id.len()
        invariant
            k <= id.len(),
            out@ == start + id@.take(k as int),
        decreases id.len() - k,
    {
        out.push(id[k]);
        k += 1;
        assert(out@ =~= start + id@.take(k as int));
    }
    assert(id@.take(id.len() as int) =~= id@);
    out.push('>');
    assert(out@ =~= user_mention(id@, nick));
    out
}

/// Makes the text of a message ready for reading: the mentions are cut
/// out, the words stand with one blank between them, and all is put in
/// lower case.
pub fn clean_text(content: &Vec<char>, bot_id: &Vec<char>) -> (out: Vec<char>)
    ensures
        out@ == lowercased(cleaned(content@, bot_id@)),
        plain_lower(cleaned(content@, bot_id@)) ==> out@ == cleaned(content@, bot_id@),
{
    let a = strip_mentions(content);
    let b = blank_out(&a, &mention_of(bot_id, false));
    let c = blank_out(&b, &mention_of(bot_id, true));
    let ws = crate::text::split_words(&c);
    let text = join_words(&ws);
    lowercase(&text)
}

/// A text without `<` holds no mention.
pub proof fn lemma_nothing_to_cut(text: Seq<char>, from: int)
    requires
        0 <= from <= text.len(),
        forall|k: int| 0 <= k < text.len() ==> #[trigger] text[k] != '<',
    ensures
        without_mentions(text, from) == text.skip(from),
    decreases text.len() - from,
{
    if from < text.len() {
        lemma_nothing_to_cut(text, from + 1);
        assert(text[from] != '<');
        assert(seq![text[from]] + text.skip(from + 1) =~= text.skip(from));
    } else {
        assert(text.skip(from) =~= Seq::<char>::empty());
    }
}

/// A text without `<` holds no occurrence of a pattern that begins with
/// `<`.
pub proof fn lemma_nothing_to_blank(text: Seq<char>, pattern: Seq<char>, from: int)
    requires
        0 <= from <= text.len(),
        pattern.len() > 0,
        pattern[0] == '<',
        forall|k: int| 0 <= k < text.len() ==> #[trigger] text[k] != '<',
    ensures
        blanked(text, pattern, from) == text.skip(from),
    decreases text.len() - from,
{
    if from < text.len() {
        lemma_nothing_to_blank(text, pattern, from + 1);
        assert(text[from] != '<');
        if occurs_at(text, pattern, from) {
            assert(text.subrange(from, from + pattern.len())[0] == text[from]);
        }
        assert(seq![text[from]] + text.skip(from + 1) =~= text.skip(from));
    } else {
        assert(text.skip(from) =~= Seq::<char>::empty());
    }
}

} // verus!
