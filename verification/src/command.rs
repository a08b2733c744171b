//! The command router's parser: from the text of a message that mentions
//! the bot to a typed argument record, and back to canonical text.
use crate::text::{
    all_digits, decimal, digits_value, is_digit, number_in, parse_number_in, push_decimal,
    same_chars, split_words, starts_with, tail_from, to_chars, word_views, words,
};
use crate::mention::{
    all_decimal, blanked, clean_text, cleaned, decimal_digit, is_decimal_digit, joined,
    lemma_nothing_to_blank, lemma_nothing_to_cut, lowercased, plain_char, plain_lower,
    user_mention, without_mentions,
};
use vstd::prelude::*;

verus! {

/// Default BLP quality.
pub const DEFAULT_QUALITY: u8 = 80;

/// Default threshold of the background removal.
pub const DEFAULT_THRESHOLD: u8 = 160;

/// The verb of a command, which names the pool that serves it.
#[derive(Clone, Copy, Debug, PartialEq, Eq, Structural)]
pub enum CommandKind {
    /// Raster image to BLP.
    Blp,
    /// BLP to PNG.
    Png,
    /// Background removal; the verbs `rembg` and `bg`.
    Rembg,
    /// Warcraft III icon set.
    Icon,
}

/// The typed arguments of a command.
#[derive(Clone, Copy, Debug, PartialEq, Eq, Structural)]
pub struct CommandArgs {
    pub kind: CommandKind,
    /// BLP quality, `1 ..= 100`.
    pub quality: u8,
    /// Threshold of the background removal, `0 ..= 255`.
    pub threshold: u8,
    /// Deliver the products in one archive.
    pub zip: bool,
    /// Background removal with a hard edge.
    pub binary: bool,
    /// Deliver the mask as well.
    pub mask: bool,
}

impl CommandArgs {
    /// The arguments of a command of the given kind before any flag is read.
    pub open spec fn initial(kind: CommandKind) -> CommandArgs {
        CommandArgs {
            kind,
            quality: DEFAULT_QUALITY,
            threshold: DEFAULT_THRESHOLD,
            zip: false,
            binary: false,
            mask: false,
        }
    }

    /// The arguments of a command of the given kind before any flag is read.
    pub fn of_kind(kind: CommandKind) -> (r: CommandArgs)
        ensures
            r == CommandArgs::initial(kind),
    {
        CommandArgs {
            kind,
            quality: DEFAULT_QUALITY,
            threshold: DEFAULT_THRESHOLD,
            zip: false,
            binary: false,
            mask: false,
        }
    }

    /// Arguments that some message spells: the quality is in range and
    /// differs from the default only for `blp`, the threshold only for
    /// `rembg`.
    pub open spec fn canonical(self) -> bool {
        &&& 1 <= self.quality <= 100
        &&& self.kind != CommandKind::Blp ==> self.quality == DEFAULT_QUALITY
        &&& self.kind != CommandKind::Rembg ==> self.threshold == DEFAULT_THRESHOLD
    }

    /// A bare number among the flags: the quality of `blp` if it lies in
    /// `1 ..= 100`, the threshold of `rembg` if it lies in `0 ..= 255`;
    /// any other number leaves the arguments as they are.
    pub open spec fn with_number(self, n: nat) -> CommandArgs {
        match self.kind {
            CommandKind::Blp => if 1 <= n <= 100 {
                CommandArgs { quality: n as u8, ..self }
            } else {
                self
            },
            CommandKind::Rembg => if n <= 255 {
                CommandArgs { threshold: n as u8, ..self }
            } else {
                self
            },
            _ => self,
        }
    }

    /// The number that directly follows the verb, if there is one. Only
    /// the digits `0` to `9` spell a number: digits of another script
    /// leave the parameter as it is.
    pub open spec fn with_inline(self, digits: Seq<char>) -> CommandArgs {
        if digits.len() > 0 && all_digits(digits) {
            self.with_number(digits_value(digits))
        } else {
            self
        }
    }
}

impl Default for CommandArgs {
    fn default() -> (r: CommandArgs)
        ensures
            r == CommandArgs::initial(CommandKind::Png),
    {
        CommandArgs::of_kind(CommandKind::Png)
    }
}

/// Whether `word` is `verb`, directly followed by at most three decimal
/// digits.
pub open spec fn verb_with_digits(word: Seq<char>, verb: Seq<char>) -> bool {
    &&& verb.is_prefix_of(word)
    &&& word.len() - verb.len() <= 3
    &&& all_decimal(word.skip(verb.len() as int))
}

/// The first word of a command: the kind that its verb names and the
/// digits that follow the verb.
pub open spec fn parse_head(word: Seq<char>) -> Option<(CommandKind, Seq<char>)> {
    if verb_with_digits(word, "blp"@) {
        Some((CommandKind::Blp, word.skip("blp"@.len() as int)))
    } else if verb_with_digits(word, "png"@) {
        Some((CommandKind::Png, word.skip("png"@.len() as int)))
    } else if verb_with_digits(word, "rembg"@) {
        Some((CommandKind::Rembg, word.skip("rembg"@.len() as int)))
    } else if verb_with_digits(word, "bg"@) {
        Some((CommandKind::Rembg, word.skip("bg"@.len() as int)))
    } else if verb_with_digits(word, "icon"@) {
        Some((CommandKind::Icon, word.skip("icon"@.len() as int)))
    } else {
        None
    }
}

/// The value that a flag word gives to a numeric parameter, and how many
/// words the flag takes up. The forms are the short letter directly
/// followed by the number, the long name with the number in the next
/// word, and the long name, `=` and the number. A number out of
/// `min ..= max` gives no value; after the long name such a word is not
/// taken up.
pub open spec fn numeric_flag(
    word: Seq<char>,
    next: Option<Seq<char>>,
    short: char,
    long: Seq<char>,
    min: nat,
    max: nat,
) -> (Option<nat>, nat) {
    if word.len() > 1 && word[0] == short {
        (number_in(word.skip(1), min, max), 1)
    } else if word == long {
        match next {
            Some(n) => match number_in(n, min, max) {
                Some(v) => (Some(v), 2),
                None => (None, 1),
            },
            None => (None, 1),
        }
    } else if (long + seq!['=']).is_prefix_of(word) {
        (number_in(word.skip(long.len() as int + 1), min, max), 1)
    } else {
        (None, 1)
    }
}

/// The arguments after the flag `word` was read, and how many words the
/// flag took up, `next` being the word after it. A word that is no flag of
/// the command is passed over.
pub open spec fn flag_step(args: CommandArgs, word: Seq<char>, next: Option<Seq<char>>) -> (
    CommandArgs,
    nat,
) {
    if word == "zip"@ {
        (CommandArgs { zip: true, ..args }, 1)
    } else if word == "binary"@ {
        (CommandArgs { binary: true, ..args }, 1)
    } else if word == "mask"@ {
        (CommandArgs { mask: true, ..args }, 1)
    } else {
        match args.kind {
            CommandKind::Blp => match number_in(word, 1, 100) {
                Some(n) => (CommandArgs { quality: n as u8, ..args }, 1),
                None => {
                    let (value, used) = numeric_flag(word, next, 'q', "--quality"@, 1, 100);
                    match value {
                        Some(n) => (CommandArgs { quality: n as u8, ..args }, used),
                        None => (args, used),
                    }
                },
            },
            CommandKind::Rembg => match number_in(word, 0, 255) {
                Some(n) => (CommandArgs { threshold: n as u8, ..args }, 1),
                None => {
                    let (value, used) = numeric_flag(word, next, 't', "--threshold"@, 0, 255);
                    match value {
                        Some(n) => (CommandArgs { threshold: n as u8, ..args }, used),
                        None => (args, used),
                    }
                },
            },
            _ => (args, 1),
        }
    }
}

/// The arguments after all of `flags` were read, from left to right.
pub open spec fn apply_flags(args: CommandArgs, flags: Seq<Seq<char>>) -> CommandArgs
    decreases flags.len(),
{
    if flags.len() == 0 {
        args
    } else {
        let next = if flags.len() > 1 {
            Some(flags[1])
        } else {
            None
        };
        let (stepped, used) = flag_step(args, flags[0], next);
        if 1 <= used <= flags.len() {
            apply_flags(stepped, flags.skip(used as int))
        } else {
            stepped
        }
    }
}

/// What a text in lower case asks for: its words are a verb, with or
/// without a number directly behind it, and then flags. A text without
/// words, or one that starts with another word, is no command.
pub open spec fn parse_text(text: Seq<char>) -> Option<CommandArgs> {
    let ws = words(text);
    if ws.len() == 0 {
        None
    } else {
        match parse_head(ws[0]) {
            Some((kind, digits)) => Some(
                apply_flags(CommandArgs::initial(kind).with_inline(digits), ws.skip(1)),
            ),
            None => None,
        }
    }
}

/// What a message asks for: what its text asks for once the mentions are
/// cut out of it and it is put in lower case.
pub open spec fn parse_command(content: Seq<char>, bot_id: Seq<char>) -> Option<CommandArgs> {
    parse_text(lowercased(cleaned(content, bot_id)))
}

fn check_verb(word: &Vec<char>, verb: &str) -> (r: Option<Vec<char>>)
    ensures
        match r {
            Some(digits) => verb_with_digits(word@, verb@) && digits@ == word@.skip(
                verb@.len() as int,
            ),
            None => !verb_with_digits(word@, verb@),
        },
{
    let v = to_chars(verb);
    if !starts_with(word, &v) {
        return None;
    }
    if word.len() - v.len() > 3 {
        return None;
    }
    let digits = tail_from(word, v.len());
    let mut i: usize = 0;
    while i < digits.len()
        invariant
            i <= digits.len(),
            digits@ == word@.skip(verb@.len() as int),
            forall|k: int| 0 <= k < i ==> decimal_digit(#[trigger] digits@[k]),
        decreases digits.len() - i,
    {
        if !is_decimal_digit(digits[i]) {
            assert(!decimal_digit(digits@[i as int]));
            return None;
        }
        i += 1;
    }
    Some(digits)
}

fn parse_head_word(word: &Vec<char>) -> (r: Option<(CommandKind, Vec<char>)>)
    ensures
        match r {
            Some((kind, digits)) => parse_head(word@) == Some((kind, digits@)) && digits@.len()
                <= 3,
            None => parse_head(word@) is None,
        },
{
    if let Some(d) = check_verb(word, "blp") {
        return Some((CommandKind::Blp, d));
    }
    if let Some(d) = check_verb(word, "png") {
        return Some((CommandKind::Png, d));
    }
    if let Some(d) = check_verb(word, "rembg") {
        return Some((CommandKind::Rembg, d));
    }
    if let Some(d) = check_verb(word, "bg") {
        return Some((CommandKind::Rembg, d));
    }
    if let Some(d) = check_verb(word, "icon") {
        return Some((CommandKind::Icon, d));
    }
    None
}

fn is_word(word: &Vec<char>, lit: &str) -> (r: bool)
    ensures
        r == (word@ == lit@),
{
    let l = to_chars(lit);
    same_chars(word, &l)
}

fn read_numeric_flag(
    word: &Vec<char>,
    next: Option<&Vec<char>>,
    short: char,
    long: &str,
    min: u16,
    max: u16,
) -> (r: (Option<u16>, usize))
    requires
        max <= 255,
    ensures
        r.1 == numeric_flag(
            word@,
            match next {
                Some(n) => Some(n@),
                None => None,
            },
            short,
            long@,
            min as nat,
            max as nat,
        ).1,
        1 <= r.1 <= 2,
        r.1 == 2 ==> next is Some,
        match r.0 {
            Some(v) => numeric_flag(
                word@,
                match next {
                    Some(n) => Some(n@),
                    None => None,
                },
                short,
                long@,
                min as nat,
                max as nat,
            ).0 == Some(v as nat) && v <= max,
            None => numeric_flag(
                word@,
                match next {
                    Some(n) => Some(n@),
                    None => None,
                },
                short,
                long@,
                min as nat,
                max as nat,
            ).0 is None,
        },
{
    if word.len() > 1 && word[0] == short {
        let rest = tail_from(word, 1);
        return (parse_number_in(&rest, min, max), 1);
    }
    let mut l = to_chars(long);
    if same_chars(word, &l) {
        return match next {
            Some(n) => match parse_number_in(n, min, max) {
                Some(v) => (Some(v), 2),
                None => (None, 1),
            },
            None => (None, 1),
        };
    }
    l.push('=');
    assert(l@ =~= long@ + seq!['=']);
    if starts_with(word, &l) {
        let rest = tail_from(word, l.len());
        return (parse_number_in(&rest, min, max), 1);
    }
    (None, 1)
}

fn read_flag(args: CommandArgs, word: &Vec<char>, next: Option<&Vec<char>>) -> (r: (
    CommandArgs,
    usize,
))
    ensures
        r.0 == flag_step(
            args,
            word@,
            match next {
                Some(n) => Some(n@),
                None => None,
            },
        ).0,
        r.1 == flag_step(
            args,
            word@,
            match next {
                Some(n) => Some(n@),
                None => None,
            },
        ).1,
        1 <= r.1 <= 2,
        r.1 == 2 ==> next is Some,
{
    let mut out = args;
    if is_word(word, "zip") {
        out.zip = true;
        return (out, 1);
    }
    if is_word(word, "binary") {
        out.binary = true;
        return (out, 1);
    }
    if is_word(word, "mask") {
        out.mask = true;
        return (out, 1);
    }
    match args.kind {
        CommandKind::Blp => {
            if let Some(n) = parse_number_in(word, 1, 100) {
                out.quality = n as u8;
                return (out, 1);
            }
            let (value, used) = read_numeric_flag(word, next, 'q', "--quality", 1, 100);
            if let Some(n) = value {
                out.quality = n as u8;
            }
            (out, used)
        },
        CommandKind::Rembg => {
            if let Some(n) = parse_number_in(word, 0, 255) {
                out.threshold = n as u8;
                return (out, 1);
            }
            let (value, used) = read_numeric_flag(word, next, 't', "--threshold", 0, 255);
            if let Some(n) = value {
                out.threshold = n as u8;
            }
            (out, used)
        },
        _ => (out, 1),
    }
}

/// Whether every character is one of the digits `0` to `9`.
fn only_digits(s: &Vec<char>) -> (r: bool)
    ensures
        r == all_digits(s@),
{
    let mut i: usize = 0;
    while i < s.len()
        invariant
            i <= s.len(),
            forall|k: int| 0 <= k < i ==> is_digit(#[trigger] s@[k]),
        decreases s.len() - i,
    {
        if !(s[i] >= '0' && s[i] <= '9') {
            assert(!is_digit(s@[i as int]));
            return false;
        }
        i += 1;
    }
    true
}

fn read_inline(kind: CommandKind, digits: &Vec<char>) -> (args: CommandArgs)
    requires
        digits@.len() <= 3,
    ensures
        args == CommandArgs::initial(kind).with_inline(digits@),
{
    let mut args = CommandArgs::of_kind(kind);
    if digits.len() > 0 && only_digits(digits) {
        proof {
            assert(is_digit(digits@[0]));
            lemma_three_digits(digits@);
        }
        // at most three digits: the value is below 1000
        if let Some(n) = parse_number_in(digits, 0, 999) {
            match kind {
                CommandKind::Blp => {
                    if 1 <= n && n <= 100 {
                        args.quality = n as u8;
                    }
                },
                CommandKind::Rembg => {
                    if n <= 255 {
                        args.threshold = n as u8;
                    }
                },
                _ => {},
            }
        }
    }
    args
}

fn read_flags(start: CommandArgs, ws: &Vec<Vec<char>>) -> (args: CommandArgs)
    requires
        ws.len() > 0,
    ensures
        args == apply_flags(start, word_views(ws@).skip(1)),
{
    let ghost all = word_views(ws@);
    let mut args = start;
    let mut i: usize = 1;
    while i < ws.len()
        invariant
            1 <= i <= ws.len(),
            all == word_views(ws@),
            apply_flags(start, all.skip(1)) == apply_flags(args, all.skip(i as int)),
        decreases ws.len() - i,
    {
        let ghost rest = all.skip(i as int);
        assert(rest[0] == ws@[i as int]@);
        let next = if i + 1 < ws.len() {
            assert(rest[1] == ws@[i + 1]@);
            Some(&ws[i + 1])
        } else {
            None
        };
        let (stepped, used) = read_flag(args, &ws[i], next);
        assert(rest.skip(used as int) =~= all.skip(i + used));
        proof {
            lemma_apply_flags_step(args, rest);
        }
        args = stepped;
        i += used;
    }
    assert(all.skip(ws.len() as int).len() == 0);
    args
}

/// Reading flags is reading the first flag and then the rest.
proof fn lemma_apply_flags_step(args: CommandArgs, flags: Seq<Seq<char>>)
    requires
        flags.len() > 0,
    ensures
        ({
            let next = if flags.len() > 1 {
                Some(flags[1])
            } else {
                None
            };
            let (stepped, used) = flag_step(args, flags[0], next);
            1 <= used <= flags.len() ==> apply_flags(args, flags) == apply_flags(
                stepped,
                flags.skip(used as int),
            )
        }),
{
}

/// Reads a text in lower case as a command.
pub fn parse_lowered(text: &Vec<char>) -> (r: Option<CommandArgs>)
    ensures
        r == parse_text(text@),
{
    let ws = split_words(text);
    if ws.len() == 0 {
        return None;
    }
    match parse_head_word(&ws[0]) {
        Some((kind, digits)) => {
            let start = read_inline(kind, &digits);
            Some(read_flags(start, &ws))
        },
        None => None,
    }
}

/// Parses the text of a message into the arguments of the command it
/// spells, or `None` if it spells none. Mentions are cut out of the text
/// wherever they stand, and capital letters count as small ones. `bot_id`
/// is the id of the bot's own user.
///
/// A text that is left without capital letters and within ASCII once the
/// mentions are cut out is read as it then stands. Reading the canonical
/// text of arguments gives those arguments back.
pub fn parse_command_args(content: &str, bot_id: &str) -> (r: Option<CommandArgs>)
    ensures
        r == parse_command(content@, bot_id@),
        plain_lower(cleaned(content@, bot_id@)) ==> r == parse_text(cleaned(content@, bot_id@)),
        forall|args: CommandArgs|
            args.canonical() && content@ == #[trigger] command_text(args) ==> r == Some(args),
{
    let chars = to_chars(content);
    let bot = to_chars(bot_id);
    let text = clean_text(&chars, &bot);
    let r = parse_lowered(&text);
    proof {
        assert forall|args: CommandArgs|
            args.canonical() && content@ == #[trigger] command_text(args) implies r == Some(
            args,
        ) by {
            lemma_canonical_text_is_clean(args, bot_id@);
            law_parse_serialize_round_trip(args);
        }
    }
    r
}

/// Up to three digits spell a number below 1000.
proof fn lemma_three_digits(digits: Seq<char>)
    requires
        digits.len() <= 3,
        all_digits(digits),
    ensures
        digits_value(digits) <= 999,
    decreases digits.len(),
{
    if digits.len() > 0 {
        assert(all_digits(digits.drop_last())) by {
            assert forall|k: int| 0 <= k < digits.drop_last().len() implies is_digit(
                #[trigger] digits.drop_last()[k],
            ) by {
                assert(digits.drop_last()[k] == digits[k]);
            }
        }
        assert(is_digit(digits.last()));
        lemma_digit_bound(digits.drop_last());
    }
}

/// `n` digits spell a number below the `n`th power of ten, for `n <= 2`.
proof fn lemma_digit_bound(digits: Seq<char>)
    requires
        digits.len() <= 2,
        all_digits(digits),
    ensures
        digits.len() == 0 ==> digits_value(digits) == 0,
        digits.len() == 1 ==> digits_value(digits) <= 9,
        digits.len() == 2 ==> digits_value(digits) <= 99,
    decreases digits.len(),
{
    if digits.len() > 0 {
        assert(all_digits(digits.drop_last())) by {
            assert forall|k: int| 0 <= k < digits.drop_last().len() implies is_digit(
                #[trigger] digits.drop_last()[k],
            ) by {
                assert(digits.drop_last()[k] == digits[k]);
            }
        }
        assert(is_digit(digits.last()));
        lemma_digit_bound(digits.drop_last());
    }
}

/// The verb under which a kind is written.
pub open spec fn verb_of(kind: CommandKind) -> Seq<char> {
    match kind {
        CommandKind::Blp => "blp"@,
        CommandKind::Png => "png"@,
        CommandKind::Rembg => "rembg"@,
        CommandKind::Icon => "icon"@,
    }
}

/// The flag that carries the numeric parameter of a command: `q` and the
/// quality for `blp`, `t` and the threshold for `rembg`.
pub open spec fn numeric_word(args: CommandArgs) -> Option<Seq<char>> {
    match args.kind {
        CommandKind::Blp => Some(seq!['q'] + decimal(args.quality as nat)),
        CommandKind::Rembg => Some(seq!['t'] + decimal(args.threshold as nat)),
        _ => None,
    }
}

/// A word with a blank before it, or nothing.
pub open spec fn spaced(word: Option<Seq<char>>) -> Seq<char> {
    match word {
        Some(w) => seq![' '] + w,
        None => Seq::empty(),
    }
}

/// A flag word if the flag is set.
pub open spec fn flag_word(set: bool, word: Seq<char>) -> Option<Seq<char>> {
    if set {
        Some(word)
    } else {
        None
    }
}

/// The canonical text of a command: the verb, the numeric flag of the
/// kind, then `zip`, `binary` and `mask` as far as they are set, with one
/// blank between two words.
pub open spec fn command_text(args: CommandArgs) -> Seq<char> {
    verb_of(args.kind) + spaced(numeric_word(args)) + spaced(flag_word(args.zip, "zip"@))
        + spaced(flag_word(args.binary, "binary"@)) + spaced(flag_word(args.mask, "mask"@))
}

/// Writes the arguments as the canonical text of the command.
pub fn serialize_command_args(args: &CommandArgs) -> (out: String)
    ensures
        out@ == command_text(*args),
{
    proof {
        reveal_strlit(" q");
        reveal_strlit(" t");
        reveal_strlit(" zip");
        reveal_strlit(" binary");
        reveal_strlit(" mask");
        reveal_strlit("zip");
        reveal_strlit("binary");
        reveal_strlit("mask");
    }
    let verb = match args.kind {
        CommandKind::Blp => "blp",
        CommandKind::Png => "png",
        CommandKind::Rembg => "rembg",
        CommandKind::Icon => "icon",
    };
    let mut out = String::from_str(verb);
    match args.kind {
        CommandKind::Blp => {
            out.append(" q");
            push_decimal(&mut out, args.quality as u64);
            assert(out@ =~= verb_of(args.kind) + spaced(numeric_word(*args)));
        },
        CommandKind::Rembg => {
            out.append(" t");
            push_decimal(&mut out, args.threshold as u64);
            assert(out@ =~= verb_of(args.kind) + spaced(numeric_word(*args)));
        },
        _ => {
            assert(out@ =~= verb_of(args.kind) + spaced(numeric_word(*args)));
        },
    }
    let ghost a = out@;
    if args.zip {
        out.append(" zip");
    }
    assert(out@ =~= a + spaced(flag_word(args.zip, "zip"@)));
    let ghost b = out@;
    if args.binary {
        out.append(" binary");
    }
    assert(out@ =~= b + spaced(flag_word(args.binary, "binary"@)));
    let ghost c = out@;
    if args.mask {
        out.append(" mask");
    }
    assert(out@ =~= c + spaced(flag_word(args.mask, "mask"@)));
    out
}

/// The flag words of the canonical text.
pub open spec fn flag_words(args: CommandArgs) -> Seq<Seq<char>> {
    opt_seq(numeric_word(args)) + opt_seq(flag_word(args.zip, "zip"@)) + opt_seq(
        flag_word(args.binary, "binary"@),
    ) + opt_seq(flag_word(args.mask, "mask"@))
}

/// The word as a sequence of one, or the empty sequence.
pub open spec fn opt_seq(word: Option<Seq<char>>) -> Seq<Seq<char>> {
    match word {
        Some(w) => seq![w],
        None => Seq::empty(),
    }
}

/// Whether `s` is empty or begins with white space.
spec fn open_start(s: Seq<char>) -> bool {
    s.len() == 0 || crate::text::is_space(s[0])
}

proof fn lemma_spaced_word(word: Option<Seq<char>>, rest: Seq<char>)
    requires
        word matches Some(w) ==> w.len() > 0 && crate::text::space_free(w),
        open_start(rest),
    ensures
        words(spaced(word) + rest) == opt_seq(word) + words(rest),
        open_start(spaced(word) + rest),
{
    match word {
        Some(w) => {
            let s = spaced(word) + rest;
            assert(s[0] == ' ');
            assert(s.drop_first() =~= w + rest);
            crate::text::lemma_words_cons(w, rest);
        },
        None => {
            assert(spaced(word) + rest =~= rest);
            assert(opt_seq(word) + words(rest) =~= words(rest));
        },
    }
}

/// The shape of the numeric flag of a canonical command.
proof fn lemma_numeric_word(args: CommandArgs)
    requires
        args.canonical(),
    ensures
        numeric_word(args) matches Some(w) ==> {
            &&& w.len() > 1
            &&& crate::text::space_free(w)
            &&& w[0] == (if args.kind == CommandKind::Blp {
                'q'
            } else {
                't'
            })
            &&& w.skip(1) == decimal(
                if args.kind == CommandKind::Blp {
                    args.quality as nat
                } else {
                    args.threshold as nat
                },
            )
        },
{
    if let Some(w) = numeric_word(args) {
        let n = if args.kind == CommandKind::Blp {
            args.quality as nat
        } else {
            args.threshold as nat
        };
        crate::text::lemma_decimal_digits(n);
        assert(w.skip(1) =~= decimal(n));
        assert forall|k: int| 0 <= k < w.len() implies !crate::text::is_space(#[trigger] w[k]) by {
            if k > 0 {
                assert(w[k] == decimal(n)[k - 1]);
                assert(is_digit(decimal(n)[k - 1]));
            }
        }
    }
}

/// The words of the canonical text are the verb and the flag words.
proof fn lemma_command_words(args: CommandArgs)
    requires
        args.canonical(),
    ensures
        words(command_text(args)) == seq![verb_of(args.kind)] + flag_words(args),
{
    reveal_strlit("blp");
    reveal_strlit("png");
    reveal_strlit("rembg");
    reveal_strlit("icon");
    reveal_strlit("zip");
    reveal_strlit("binary");
    reveal_strlit("mask");
    lemma_numeric_word(args);
    let verb = verb_of(args.kind);
    let n = numeric_word(args);
    let z = flag_word(args.zip, "zip"@);
    let b = flag_word(args.binary, "binary"@);
    let m = flag_word(args.mask, "mask"@);
    let empty = Seq::<char>::empty();
    lemma_spaced_word(m, empty);
    let t4 = spaced(m) + empty;
    lemma_spaced_word(b, t4);
    let t3 = spaced(b) + t4;
    lemma_spaced_word(z, t3);
    let t2 = spaced(z) + t3;
    lemma_spaced_word(n, t2);
    let t1 = spaced(n) + t2;
    assert(verb.len() > 0 && crate::text::space_free(verb));
    crate::text::lemma_words_cons(verb, t1);
    assert(command_text(args) =~= verb + t1);
    assert(words(empty) =~= Seq::<Seq<char>>::empty());
    assert(words(t1) =~= flag_words(args));
}

/// The verb alone is the head of a command of its kind.
proof fn lemma_verb_head(kind: CommandKind)
    ensures
        parse_head(verb_of(kind)) == Some((kind, Seq::<char>::empty())),
{
    reveal_strlit("blp");
    reveal_strlit("png");
    reveal_strlit("rembg");
    reveal_strlit("bg");
    reveal_strlit("icon");
    let v = verb_of(kind);
    assert(v.skip(v.len() as int) =~= Seq::<char>::empty());
    assert(v =~= v.subrange(0, v.len() as int));
    assert(v.is_prefix_of(v));
    assert(verb_with_digits(v, v));
    match kind {
        CommandKind::Blp => {},
        CommandKind::Png => {
            assert(!"blp"@.is_prefix_of(v)) by {
                if "blp"@.is_prefix_of(v) {
                    assert(v[0] == "blp"@[0]);
                }
            }
        },
        CommandKind::Rembg => {
            assert(!"blp"@.is_prefix_of(v)) by {
                if "blp"@.is_prefix_of(v) {
                    assert(v[0] == "blp"@[0]);
                }
            }
            assert(!"png"@.is_prefix_of(v)) by {
                if "png"@.is_prefix_of(v) {
                    assert(v[0] == "png"@[0]);
                }
            }
        },
        CommandKind::Icon => {
            assert(!"blp"@.is_prefix_of(v)) by {
                if "blp"@.is_prefix_of(v) {
                    assert(v[0] == "blp"@[0]);
                }
            }
            assert(!"png"@.is_prefix_of(v)) by {
                if "png"@.is_prefix_of(v) {
                    assert(v[0] == "png"@[0]);
                }
            }
            assert(!"rembg"@.is_prefix_of(v)) by {
                if "rembg"@.is_prefix_of(v) {
                    assert(v[0] == "rembg"@[0]);
                }
            }
            assert(!"bg"@.is_prefix_of(v)) by {
                if "bg"@.is_prefix_of(v) {
                    assert(v[0] == "bg"@[0]);
                }
            }
        },
    }
}

/// Reading the numeric flag of a canonical command sets the parameter.
proof fn lemma_read_numeric_word(start: CommandArgs, args: CommandArgs, next: Option<Seq<char>>)
    requires
        args.canonical(),
        start.kind == args.kind,
        start.kind == CommandKind::Blp ==> start.threshold == args.threshold,
        start.kind == CommandKind::Rembg ==> start.quality == args.quality,
        numeric_word(args) is Some,
    ensures
        flag_step(start, numeric_word(args)->0, next) == (
            CommandArgs { quality: args.quality, threshold: args.threshold, ..start },
            1nat,
        ),
{
    reveal_strlit("zip");
    reveal_strlit("binary");
    reveal_strlit("mask");
    reveal_strlit("--quality");
    reveal_strlit("--threshold");
    lemma_numeric_word(args);
    let w = numeric_word(args)->0;
    assert(w != "zip"@) by {
        if w == "zip"@ {
            assert(w[0] == "zip"@[0]);
        }
    }
    assert(w != "binary"@) by {
        if w == "binary"@ {
            assert(w[0] == "binary"@[0]);
        }
    }
    assert(w != "mask"@) by {
        if w == "mask"@ {
            assert(w[0] == "mask"@[0]);
        }
    }
    assert(crate::text::number(w) is None) by {
        assert(!is_digit(w[0]));
    }
    if args.kind == CommandKind::Blp {
        crate::text::lemma_decimal_value(args.quality as nat);
    } else {
        crate::text::lemma_decimal_value(args.threshold as nat);
    }
}

/// Reading a plain flag word sets that flag and nothing else.
proof fn lemma_read_plain_flags(start: CommandArgs, next: Option<Seq<char>>)
    ensures
        flag_step(start, "zip"@, next) == (CommandArgs { zip: true, ..start }, 1nat),
        flag_step(start, "binary"@, next) == (CommandArgs { binary: true, ..start }, 1nat),
        flag_step(start, "mask"@, next) == (CommandArgs { mask: true, ..start }, 1nat),
{
    reveal_strlit("zip");
    reveal_strlit("binary");
    reveal_strlit("mask");
    assert("binary"@ != "zip"@) by {
        if "binary"@ == "zip"@ {
            assert("binary"@[0] == "zip"@[0]);
        }
    }
    assert("mask"@ != "zip"@) by {
        if "mask"@ == "zip"@ {
            assert("mask"@[0] == "zip"@[0]);
        }
    }
    assert("mask"@ != "binary"@) by {
        if "mask"@ == "binary"@ {
            assert("mask"@[0] == "binary"@[0]);
        }
    }
}

/// Reading one optional flag word in front of further flags.
proof fn lemma_apply_opt(
    start: CommandArgs,
    word: Option<Seq<char>>,
    stepped: CommandArgs,
    rest: Seq<Seq<char>>,
)
    requires
        word matches Some(w) ==> forall|next: Option<Seq<char>>|
            #[trigger] flag_step(start, w, next) == (stepped, 1nat),
        word is None ==> stepped == start,
    ensures
        apply_flags(start, opt_seq(word) + rest) == apply_flags(stepped, rest),
{
    match word {
        Some(w) => {
            let flags = opt_seq(word) + rest;
            assert(flags[0] == w);
            assert(flags.skip(1) =~= rest);
            lemma_apply_flags_step(start, flags);
        },
        None => {
            assert(opt_seq(word) + rest =~= rest);
        },
    }
}

/// Reading the flag words of a canonical command gives its arguments.
proof fn lemma_apply_flag_words(args: CommandArgs)
    requires
        args.canonical(),
    ensures
        apply_flags(CommandArgs::initial(args.kind), flag_words(args)) == args,
{
    let s0 = CommandArgs::initial(args.kind);
    let n = numeric_word(args);
    let z = flag_word(args.zip, "zip"@);
    let b = flag_word(args.binary, "binary"@);
    let m = flag_word(args.mask, "mask"@);
    let s1 = CommandArgs { quality: args.quality, threshold: args.threshold, ..s0 };
    let s2 = CommandArgs { zip: args.zip, ..s1 };
    let s3 = CommandArgs { binary: args.binary, ..s2 };
    let s4 = CommandArgs { mask: args.mask, ..s3 };
    let r3 = opt_seq(m);
    let r2 = opt_seq(b) + r3;
    let r1 = opt_seq(z) + r2;
    assert(flag_words(args) =~= opt_seq(n) + r1);
    if n is Some {
        assert forall|next: Option<Seq<char>>| #[trigger]
            flag_step(s0, n->0, next) == (s1, 1nat) by {
            lemma_read_numeric_word(s0, args, next);
        }
    }
    lemma_apply_opt(s0, n, s1, r1);
    assert forall|next: Option<Seq<char>>| #[trigger]
        flag_step(s1, "zip"@, next) == (CommandArgs { zip: true, ..s1 }, 1nat) by {
        lemma_read_plain_flags(s1, next);
    }
    lemma_apply_opt(s1, z, s2, r2);
    assert forall|next: Option<Seq<char>>| #[trigger]
        flag_step(s2, "binary"@, next) == (CommandArgs { binary: true, ..s2 }, 1nat) by {
        lemma_read_plain_flags(s2, next);
    }
    lemma_apply_opt(s2, b, s3, r3);
    assert forall|next: Option<Seq<char>>| #[trigger]
        flag_step(s3, "mask"@, next) == (CommandArgs { mask: true, ..s3 }, 1nat) by {
        lemma_read_plain_flags(s3, next);
    }
    lemma_apply_opt(s3, m, s4, Seq::<Seq<char>>::empty());
    assert(r3 =~= opt_seq(m) + Seq::<Seq<char>>::empty());
    assert(s4 == args);
}

/// Round trip on the canonical form: reading the text that
/// `serialize_command_args` writes gives the arguments back.
pub proof fn law_parse_serialize_round_trip(args: CommandArgs)
    requires
        args.canonical(),
    ensures
        parse_text(command_text(args)) == Some(args),
{
    reveal_strlit("blp");
    reveal_strlit("png");
    reveal_strlit("rembg");
    reveal_strlit("icon");
    reveal_strlit("zip");
    reveal_strlit("binary");
    reveal_strlit("mask");
    lemma_command_words(args);
    lemma_numeric_word(args);
    let ws = seq![verb_of(args.kind)] + flag_words(args);
    lemma_verb_head(args.kind);
    assert(ws[0] == verb_of(args.kind));
    assert(ws.skip(1) =~= flag_words(args));
    lemma_apply_flag_words(args);
}

/// A lower-case letter, a digit or a blank.
spec fn token_char(c: char) -> bool {
    ('a' <= c <= 'z') || is_digit(c) || c == ' '
}

/// Whether the text is made of lower-case letters, digits and blanks.
spec fn token_text(text: Seq<char>) -> bool {
    forall|k: int| 0 <= k < text.len() ==> token_char(#[trigger] text[k])
}

proof fn lemma_token_concat(a: Seq<char>, b: Seq<char>)
    requires
        token_text(a),
        token_text(b),
    ensures
        token_text(a + b),
{
    assert forall|k: int| 0 <= k < (a + b).len() implies token_char(#[trigger] (a + b)[k]) by {
        if k < a.len() {
            assert((a + b)[k] == a[k]);
        } else {
            assert((a + b)[k] == b[k - a.len()]);
        }
    }
}

proof fn lemma_token_spaced(word: Option<Seq<char>>)
    requires
        word matches Some(w) ==> token_text(w),
    ensures
        token_text(spaced(word)),
{
    if let Some(w) = word {
        assert(token_text(seq![' ']));
        lemma_token_concat(seq![' '], w);
    }
}

/// Joining words and one more, if there is one.
proof fn lemma_joined_opt(ws: Seq<Seq<char>>, word: Option<Seq<char>>)
    requires
        ws.len() > 0,
    ensures
        joined(ws + opt_seq(word)) == joined(ws) + spaced(word),
{
    match word {
        Some(w) => {
            let all = ws + opt_seq(word);
            assert(all.drop_last() =~= ws);
            assert(all.last() == w);
            assert(joined(ws) + seq![' '] + w =~= joined(ws) + (seq![' '] + w));
        },
        None => {
            assert(ws + opt_seq(word) =~= ws);
            assert(joined(ws) + spaced(word) =~= joined(ws));
        },
    }
}

/// The canonical text of a command is clean already: it holds no
/// mention, its words stand with one blank between them, and it is in
/// lower case.
proof fn lemma_canonical_text_is_clean(args: CommandArgs, bot_id: Seq<char>)
    requires
        args.canonical(),
    ensures
        cleaned(command_text(args), bot_id) == command_text(args),
        plain_lower(command_text(args)),
{
    reveal_strlit("blp");
    reveal_strlit("png");
    reveal_strlit("rembg");
    reveal_strlit("icon");
    reveal_strlit("zip");
    reveal_strlit("binary");
    reveal_strlit("mask");
    let text = command_text(args);
    let verb = verb_of(args.kind);
    let n = numeric_word(args);
    let z = flag_word(args.zip, "zip"@);
    let b = flag_word(args.binary, "binary"@);
    let m = flag_word(args.mask, "mask"@);
    // made of lower-case letters, digits and blanks
    assert(token_text(verb));
    assert(token_text("zip"@));
    assert(token_text("binary"@));
    assert(token_text("mask"@));
    if let Some(w) = n {
        let value = if args.kind == CommandKind::Blp {
            args.quality as nat
        } else {
            args.threshold as nat
        };
        crate::text::lemma_decimal_digits(value);
        lemma_numeric_word(args);
        assert forall|k: int| 0 <= k < w.len() implies token_char(#[trigger] w[k]) by {
            if k > 0 {
                assert(w[k] == decimal(value)[k - 1]);
                assert(is_digit(decimal(value)[k - 1]));
            }
        }
    }
    lemma_token_spaced(n);
    lemma_token_spaced(z);
    lemma_token_spaced(b);
    lemma_token_spaced(m);
    lemma_token_concat(verb, spaced(n));
    lemma_token_concat(verb + spaced(n), spaced(z));
    lemma_token_concat(verb + spaced(n) + spaced(z), spaced(b));
    lemma_token_concat(verb + spaced(n) + spaced(z) + spaced(b), spaced(m));
    assert(token_text(text));
    assert forall|k: int| 0 <= k < text.len() implies plain_char(#[trigger] text[k]) && text[k]
        != '<' by {
        assert(token_char(text[k]));
    }
    // nothing to cut out
    lemma_nothing_to_cut(text, 0);
    assert(text.skip(0) =~= text);
    let plain = user_mention(bot_id, false);
    let nicked = user_mention(bot_id, true);
    assert(plain[0] == '<' && nicked[0] == '<');
    lemma_nothing_to_blank(text, plain, 0);
    lemma_nothing_to_blank(text, nicked, 0);
    // one blank between two words
    lemma_command_words(args);
    let w0 = seq![verb];
    assert(joined(w0) == verb);
    lemma_joined_opt(w0, n);
    lemma_joined_opt(w0 + opt_seq(n), z);
    lemma_joined_opt(w0 + opt_seq(n) + opt_seq(z), b);
    lemma_joined_opt(w0 + opt_seq(n) + opt_seq(z) + opt_seq(b), m);
    assert(w0 + opt_seq(n) + opt_seq(z) + opt_seq(b) + opt_seq(m) =~= w0 + flag_words(args));
}

} // verus!
