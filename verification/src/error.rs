//! The error model: an error with a stable key, the place where it was
//! raised and the ordered chain of its causes, and the printer that draws
//! the chain as a tree.
use crate::text::{decimal, push_decimal};
use vstd::prelude::*;

verus! {

/// The kinds of errors of the service.
#[derive(Clone, Copy, Debug, PartialEq, Eq, Structural)]
pub enum ErrorKind {
    /// Network, HTTP or websocket.
    Transport,
    /// An error that the platform returned as JSON.
    Api,
    /// An operation of the document store.
    Store,
    /// Decoding or encoding of an image.
    Codec,
    /// Loading or running the model.
    Inference,
    /// JSON or command text.
    Parse,
    /// A missing setting.
    Config,
}

impl ErrorKind {
    /// The key of the kind.
    pub open spec fn key_text(self) -> Seq<char> {
        match self {
            ErrorKind::Transport => "transport"@,
            ErrorKind::Api => "api"@,
            ErrorKind::Store => "store"@,
            ErrorKind::Codec => "codec"@,
            ErrorKind::Inference => "inference"@,
            ErrorKind::Parse => "parse"@,
            ErrorKind::Config => "config"@,
        }
    }

    /// The key of the kind.
    pub fn key(&self) -> (k: &'static str)
        ensures
            k@ == self.key_text(),
    {
        match self {
            ErrorKind::Transport => "transport",
            ErrorKind::Api => "api",
            ErrorKind::Store => "store",
            ErrorKind::Codec => "codec",
            ErrorKind::Inference => "inference",
            ErrorKind::Parse => "parse",
            ErrorKind::Config => "config",
        }
    }
}

/// Whether `c` may stand in a key: a lower-case letter or a digit.
pub open spec fn key_char(c: char) -> bool {
    ('a' <= c <= 'z') || ('0' <= c <= '9')
}

/// Whether `key` is in kebab case: words of lower-case letters and digits,
/// with one hyphen between two words.
pub open spec fn kebab_case(key: Seq<char>) -> bool {
    &&& key.len() > 0
    &&& forall|k: int| 0 <= k < key.len() ==> key_char(#[trigger] key[k]) || key[k] == '-'
    &&& key[0] != '-'
    &&& key.last() != '-'
    &&& forall|k: int| 0 <= k < key.len() - 1 ==> !(#[trigger] key[k] == '-' && key[k + 1] == '-')
}

/// Whether `key` is in kebab case.
pub fn is_kebab_case(key: &str) -> (r: bool)
    ensures
        r == kebab_case(key@),
{
    let chars = crate::text::to_chars(key);
    let n = chars.len();
    if n == 0 {
        return false;
    }
    if chars[0] == '-' || chars[n - 1] == '-' {
        return false;
    }
    let mut i: usize = 0;
    while i < n
        invariant
            i <= n,
            n == chars.len(),
            chars@ == key@,
            forall|k: int| 0 <= k < i ==> key_char(#[trigger] chars@[k]) || chars@[k] == '-',
            forall|k: int|
                0 <= k < i && k < n - 1 ==> !(#[trigger] chars@[k] == '-' && chars@[k + 1] == '-'),
        decreases n - i,
    {
        let c = chars[i];
        let plain = (c >= 'a' && c <= 'z') || (c >= '0' && c <= '9');
        if !plain && c != '-' {
            return false;
        }
        if c == '-' && i + 1 < n && chars[i + 1] == '-' {
            return false;
        }
        i += 1;
    }
    true
}

/// The key of every kind of error is in kebab case.
pub proof fn law_kind_keys_are_kebab_case(kind: ErrorKind)
    ensures
        kebab_case(kind.key_text()),
{
    reveal_strlit("transport");
    reveal_strlit("api");
    reveal_strlit("store");
    reveal_strlit("codec");
    reveal_strlit("inference");
    reveal_strlit("parse");
    reveal_strlit("config");
}

/// An error from outside the service, as text: what it says of itself and
/// what each error down its chain of sources says.
#[derive(Debug)]
pub struct Foreign {
    pub message: String,
    pub sources: Vec<String>,
}

/// One cause of an error.
#[derive(Debug)]
pub enum Cause {
    /// An error of the service.
    Any(BotError),
    /// An error from outside.
    Std(Foreign),
}

/// An error of the service.
#[derive(Debug)]
pub struct BotError {
    /// The stable key of the error.
    pub key: &'static str,
    /// The causes, in the order in which they were added.
    pub causes: Vec<Cause>,
    /// The source file in which the error was raised.
    pub file: &'static str,
    /// The line in that file.
    pub line: u32,
}

impl BotError {
    /// An error without causes, raised at the given place.
    pub fn new_at(key: &'static str, file: &'static str, line: u32) -> (r: BotError)
        ensures
            r.key@ == key@,
            r.file@ == file@,
            r.line == line,
            r.causes@.len() == 0,
    {
        BotError { key, causes: Vec::new(), file, line }
    }

    /// An error of the given kind without causes, raised at the given
    /// place.
    pub fn of_kind(kind: ErrorKind, file: &'static str, line: u32) -> (r: BotError)
        ensures
            r.key@ == kind.key_text(),
            r.file@ == file@,
            r.line == line,
            r.causes@.len() == 0,
    {
        BotError { key: kind.key(), causes: Vec::new(), file, line }
    }

    /// The error with one more cause, an error of the service, at the end
    /// of its chain.
    pub fn push_any(self, cause: BotError) -> (r: BotError)
        ensures
            r.key == self.key,
            r.file == self.file,
            r.line == self.line,
            r.causes@ == self.causes@.push(Cause::Any(cause)),
    {
        let mut out = self;
        out.causes.push(Cause::Any(cause));
        out
    }

    /// The error with one more cause, a plain message, at the end of its
    /// chain.
    pub fn push_str(self, message: String) -> (r: BotError)
        ensures
            r.key == self.key,
            r.file == self.file,
            r.line == self.line,
            r.causes@.len() == self.causes@.len() + 1,
            r.causes@.take(self.causes@.len() as int) == self.causes@,
            r.causes@.last() matches Cause::Std(f) && f.message == message && f.sources@.len()
                == 0,
    {
        let mut out = self;
        out.causes.push(Cause::Std(Foreign { message, sources: Vec::new() }));
        assert(out.causes@.take(self.causes@.len() as int) =~= self.causes@);
        out
    }

    /// The error with one more cause, an error from outside, at the end of
    /// its chain.
    pub fn push_std(self, cause: Foreign) -> (r: BotError)
        ensures
            r.key == self.key,
            r.file == self.file,
            r.line == self.line,
            r.causes@ == self.causes@.push(Cause::Std(cause)),
    {
        let mut out = self;
        out.causes.push(Cause::Std(cause));
        out
    }

    /// The place and the key of the error: `[file:line] key`.
    pub open spec fn headline(self) -> Seq<char> {
        "["@ + self.file@ + ":"@ + decimal(self.line as nat) + "] "@ + self.key@
    }

    /// The error in one line: place and key, and the number of its causes
    /// if it has any.
    pub open spec fn summary(self) -> Seq<char> {
        if self.causes@.len() == 0 {
            self.headline()
        } else {
            self.headline() + " (causes: "@ + decimal(self.causes@.len()) + ")"@
        }
    }

    fn write_headline(&self, out: &mut String)
        ensures
            final(out)@ == old(out)@ + self.headline(),
    {
        let ghost start = out@;
        out.append("[");
        out.append(self.file);
        out.append(":");
        push_decimal(out, self.line as u64);
        out.append("] ");
        out.append(self.key);
        assert(out@ =~= start + self.headline());
    }

    /// Writes the error in one line.
    pub fn describe(&self) -> (r: String)
        ensures
            r@ == self.summary(),
    {
        let mut out = String::new();
        self.write_headline(&mut out);
        assert(out@ =~= self.headline());
        if self.causes.len() > 0 {
            out.append(" (causes: ");
            push_decimal(&mut out, self.causes.len() as u64);
            out.append(")");
        }
        out
    }

    /// Whether the key of the error is in kebab case.
    pub fn has_kebab_key(&self) -> (r: bool)
        ensures
            r == kebab_case(self.key@),
    {
        is_kebab_case(self.key)
    }

    /// The first cause of the error, if it has one.
    pub fn source(&self) -> (r: Option<&Cause>)
        ensures
            self.causes@.len() == 0 <==> r is None,
            r matches Some(c) ==> *c == self.causes@[0],
    {
        if self.causes.len() > 0 {
            Some(&self.causes[0])
        } else {
            None
        }
    }
}

/// The texts that the strings hold.
pub open spec fn line_views(lines: Seq<String>) -> Seq<Seq<char>> {
    Seq::new(lines.len(), |k: int| lines[k]@)
}

/// What leads from the line of an error to the line of a cause: one form
/// for the last cause, one for the others.
pub open spec fn branch(last: bool) -> Seq<char> {
    if last {
        "\u{2514}\u{2500}\u{2500} "@
    } else {
        "\u{251c}\u{2500}\u{2500} "@
    }
}

/// What stands before the lines below a cause: blanks below the last
/// cause, a vertical bar below the others.
pub open spec fn extension(last: bool) -> Seq<char> {
    if last {
        "    "@
    } else {
        "\u{2502}   "@
    }
}

/// `n` times two blanks.
pub open spec fn indent(n: nat) -> Seq<char>
    decreases n,
{
    if n == 0 {
        Seq::empty()
    } else {
        indent((n - 1) as nat) + "  "@
    }
}

/// The lines for the sources of an error from outside, from the source
/// with index `from` on: for each an arrow, and below it what the source
/// says, both further in by its depth.
pub open spec fn source_lines(sources: Seq<String>, prefix: Seq<char>, from: int) -> Seq<
    Seq<char>,
>
    decreases sources.len() - from,
{
    if from < 0 || from >= sources.len() {
        Seq::empty()
    } else {
        seq![
            prefix + indent(from as nat) + "    \u{21b3} "@,
            prefix + indent((from + 1) as nat) + "  "@ + sources[from]@,
        ] + source_lines(sources, prefix, from + 1)
    }
}

/// The lines of the tree below an error, from its cause with index `from`
/// on. Each cause has a line of its own behind a branch: place and key of
/// an error of the service, the message of an error from outside. Below
/// it stand the lines of its own causes or sources, behind the extension
/// of the branch.
pub open spec fn tree_lines(e: BotError, prefix: Seq<char>, from: int) -> Seq<Seq<char>>
    decreases e, e.causes@.len() - from,
{
    if from < 0 || from >= e.causes@.len() {
        Seq::empty()
    } else {
        let last = from == e.causes@.len() - 1;
        (match e.causes@[from] {
            Cause::Any(inner) => seq![prefix + branch(last) + inner.headline()] + tree_lines(
                inner,
                prefix + extension(last),
                0,
            ),
            Cause::Std(f) => seq![prefix + branch(last) + f.message@] + source_lines(
                f.sources@,
                prefix + extension(last),
                0,
            ),
        }) + tree_lines(e, prefix, from + 1)
    }
}

/// The line that opens the printed tree: `[ERROR] file:line - key`.
pub open spec fn tree_head(e: BotError) -> Seq<char> {
    "[ERROR] "@ + e.file@ + ":"@ + decimal(e.line as nat) + " - "@ + e.key@
}

fn render_sources(f: &Foreign, prefix: &str, out: &mut Vec<String>)
    ensures
        line_views(final(out)@) == line_views(old(out)@) + source_lines(f.sources@, prefix@, 0),
{
    let ghost start = line_views(out@);
    let mut pad = String::from_str(prefix);
    let mut d: usize = 0;
    assert(prefix@ + indent(0) =~= prefix@);
    assert(start + Seq::<Seq<char>>::empty() =~= start);
    while d < f.sources.len()
        invariant
            d <= f.sources.len(),
            pad@ == prefix@ + indent(d as nat),
            line_views(out@) + source_lines(f.sources@, prefix@, d as int) == start + source_lines(
                f.sources@,
                prefix@,
                0,
            ),
        decreases f.sources.len() - d,
    {
        let ghost before = line_views(out@);
        let mut arrow = pad.clone();
        arrow.append("    \u{21b3} ");
        pad.append("  ");
        assert(pad@ =~= prefix@ + indent((d + 1) as nat));
        let mut text = pad.clone();
        text.append("  ");
        text.append(f.sources[d].as_str());
        out.push(arrow);
        out.push(text);
        proof {
            let pair = seq![arrow@, text@];
            assert(line_views(out@) =~= before + pair);
            let rest = source_lines(f.sources@, prefix@, d + 1);
            assert(source_lines(f.sources@, prefix@, d as int) == pair + rest);
            assert((before + pair) + rest =~= before + (pair + rest));
        }
        d += 1;
    }
    assert(line_views(out@) + Seq::<Seq<char>>::empty() =~= line_views(out@));
}

impl BotError {
    fn render_causes(&self, prefix: &str, out: &mut Vec<String>)
        ensures
            line_views(final(out)@) == line_views(old(out)@) + tree_lines(*self, prefix@, 0),
        decreases self,
    {
        let ghost start = line_views(out@);
        let n = self.causes.len();
        let mut i: usize = 0;
        assert(start + Seq::<Seq<char>>::empty() =~= start);
        while i < n
            invariant
                i <= n,
                n == self.causes@.len(),
                line_views(out@) + tree_lines(*self, prefix@, i as int) == start + tree_lines(
                    *self,
                    prefix@,
                    0,
                ),
            decreases n - i,
        {
            let ghost before = line_views(out@);
            let last = i == n - 1;
            let mut line = String::from_str(prefix);
            line.append(if last {
                "\u{2514}\u{2500}\u{2500} "
            } else {
                "\u{251c}\u{2500}\u{2500} "
            });
            let mut below = String::from_str(prefix);
            below.append(if last {
                "    "
            } else {
                "\u{2502}   "
            });
            assert(line@ == prefix@ + branch(last));
            assert(below@ == prefix@ + extension(last));
            let ghost rest = tree_lines(*self, prefix@, i + 1);
            match &self.causes[i] {
                Cause::Any(inner) => {
                    inner.write_headline(&mut line);
                    out.push(line);
                    assert(line_views(out@) =~= before + seq![line@]);
                    inner.render_causes(below.as_str(), out);
                    proof {
                        let sub = tree_lines(*inner, below@, 0);
                        assert(tree_lines(*self, prefix@, i as int) == (seq![line@] + sub) + rest);
                        assert(((before + seq![line@]) + sub) + rest =~= before + ((seq![line@]
                            + sub) + rest));
                    }
                },
                Cause::Std(f) => {
                    line.append(f.message.as_str());
                    out.push(line);
                    assert(line_views(out@) =~= before + seq![line@]);
                    render_sources(f, below.as_str(), out);
                    proof {
                        let sub = source_lines(f.sources@, below@, 0);
                        assert(tree_lines(*self, prefix@, i as int) == (seq![line@] + sub) + rest);
                        assert(((before + seq![line@]) + sub) + rest =~= before + ((seq![line@]
                            + sub) + rest));
                    }
                },
            }
            i += 1;
        }
        assert(line_views(out@) + Seq::<Seq<char>>::empty() =~= line_views(out@));
    }

    /// The lines that print the error as a tree: the head with place and
    /// key, then the causes, each behind a branch, with their own causes
    /// below them.
    pub fn render_tree(&self) -> (lines: Vec<String>)
        ensures
            line_views(lines@) == seq![tree_head(*self)] + tree_lines(*self, Seq::empty(), 0),
    {
        let mut head = String::from_str("[ERROR] ");
        head.append(self.file);
        head.append(":");
        push_decimal(&mut head, self.line as u64);
        head.append(" - ");
        head.append(self.key);
        let mut lines: Vec<String> = Vec::new();
        lines.push(head);
        assert(line_views(lines@) =~= seq![tree_head(*self)]);
        proof {
            reveal_strlit("");
            assert(""@ =~= Seq::<char>::empty());
        }
        self.render_causes("", &mut lines);
        lines
    }
}

} // verus!
