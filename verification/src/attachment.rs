//! Attachments of a message: their file names, the stem and extension of a
//! name, and the renaming that keeps the names of one batch apart.
use crate::text::{
    decimal, is_digit, lemma_decimal_digits, lemma_decimal_injective, push_decimal,
};
use vstd::hash_map::StringHashMap;
use vstd::prelude::*;

verus! {

/// A file attached to a message.
#[derive(Debug)]
pub struct Attachment {
    pub id: String,
    pub url: String,
    pub filename: String,
}

/// Mathematical model of an `Attachment`.
pub ghost struct AttachmentView {
    pub id: Seq<char>,
    pub url: Seq<char>,
    pub filename: Seq<char>,
}

impl View for Attachment {
    type V = AttachmentView;

    open spec fn view(&self) -> AttachmentView {
        AttachmentView { id: self.id@, url: self.url@, filename: self.filename@ }
    }
}

impl Attachment {
    /// A copy of the attachment.
    pub fn duplicate(&self) -> (r: Attachment)
        ensures
            r@ == self@,
    {
        Attachment { id: self.id.clone(), url: self.url.clone(), filename: self.filename.clone() }
    }
}

/// The file names of a batch of attachments.
pub open spec fn filenames(batch: Seq<Attachment>) -> Seq<Seq<char>> {
    Seq::new(batch.len(), |k: int| batch[k].filename@)
}

/// What `std::path::Path::file_stem` returns for the path `name`: the file
/// name without its extension, or `None` where the path has no file name.
pub uninterp spec fn path_file_stem(name: Seq<char>) -> Option<Seq<char>>;

/// What `std::path::Path::extension` returns for the path `name`: what
/// follows the last dot of the file name, or `None` where the file name
/// has no dot but a leading one.
pub uninterp spec fn path_extension(name: Seq<char>) -> Option<Seq<char>>;

/// Whether `s` holds no dot from position `from` on.
pub open spec fn dot_free_from(s: Seq<char>, from: int) -> bool {
    forall|k: int| from <= k < s.len() ==> #[trigger] s[k] != '.'
}

/// An extension holds no dot.
pub open spec fn extension_is_plain(name: Seq<char>) -> bool {
    path_extension(name) matches Some(e) ==> dot_free_from(e, 0)
}

/// Where a file name has no extension, its stem is the whole file name,
/// which then holds no dot but a leading one.
pub open spec fn bare_stem_is_plain(name: Seq<char>) -> bool {
    path_extension(name) is None ==> (path_file_stem(name) matches Some(s) ==> dot_free_from(
        s,
        1,
    ))
}

/// `std::path::Path::file_stem` on `name`, as text. The contract names the
/// result and adds what the documentation of std says of a file name
/// without extension: the stem is then the whole file name, with no dot in
/// it or with a single, leading one.
#[verifier::external_body]
fn file_stem(name: &str) -> (r: Option<String>)
    ensures
        r matches Some(s) ==> path_file_stem(name@) == Some(s@) && (path_extension(name@) is None
            ==> dot_free_from(s@, 1)),
        r is None ==> path_file_stem(name@) is None,
{
    std::path::Path::new(name).file_stem().and_then(|s| s.to_str()).map(|s| s.to_string())
}

/// `std::path::Path::extension` on `name`, as text. The contract names the
/// result and adds what the documentation of std says of it: the extension
/// is what follows the last dot, so it holds none.
#[verifier::external_body]
fn file_extension(name: &str) -> (r: Option<String>)
    ensures
        r matches Some(e) ==> path_extension(name@) == Some(e@) && dot_free_from(e@, 0),
        r is None ==> path_extension(name@) is None,
{
    std::path::Path::new(name).extension().and_then(|s| s.to_str()).map(|s| s.to_string())
}

/// The stem by which a file name is counted: its file stem, or the whole
/// name where it has none.
pub open spec fn stem_of(name: Seq<char>) -> Seq<char> {
    match path_file_stem(name) {
        Some(s) => s,
        None => name,
    }
}

/// How many of the first `n` names have the stem `stem`.
pub open spec fn stem_count(names: Seq<Seq<char>>, stem: Seq<char>, n: int) -> nat
    decreases n,
{
    if n <= 0 {
        0
    } else {
        stem_count(names, stem, n - 1) + if stem_of(names[n - 1]) == stem {
            1nat
        } else {
            0nat
        }
    }
}

/// The running number of the `i`th name among the names of its stem, the
/// first one being number 1.
pub open spec fn occurrence(names: Seq<Seq<char>>, i: int) -> nat {
    stem_count(names, stem_of(names[i]), i + 1)
}

/// A dot and the extension, or nothing.
pub open spec fn dot_extension(ext: Option<Seq<char>>) -> Seq<char> {
    match ext {
        Some(e) => seq!['.'] + e,
        None => Seq::empty(),
    }
}

/// The name `stem_N.ext`, or `stem_N` without an extension.
pub open spec fn numbered_name(stem: Seq<char>, n: nat, ext: Option<Seq<char>>) -> Seq<char> {
    stem + seq!['_'] + decimal(n) + dot_extension(ext)
}

/// The name that the `i`th attachment of a batch gets: its own name if it
/// is the first of its stem, else the stem with its running number.
pub open spec fn unique_name(names: Seq<Seq<char>>, i: int) -> Seq<char> {
    if occurrence(names, i) > 1 {
        numbered_name(stem_of(names[i]), occurrence(names, i), path_extension(names[i]))
    } else {
        names[i]
    }
}

/// Whether the last dot of the name stands directly behind an ASCII
/// digit, two or more characters into the name.
pub open spec fn last_dot_follows_digit(name: Seq<char>) -> bool {
    exists|p: int|
        2 <= p < name.len() && #[trigger] name[p] == '.' && dot_free_from(name, p + 1)
            && is_digit(name[p - 1])
}

/// No name of the batch that is numbered and has neither extension nor
/// file stem ends like a numbered name with an extension: with a last dot
/// directly behind a digit.
pub open spec fn stemless_names_apart(names: Seq<Seq<char>>) -> bool {
    forall|k: int|
        0 <= k < names.len() && occurrence(names, k) > 1 && path_extension(#[trigger] names[k])
            is None && path_file_stem(names[k]) is None ==> !last_dot_follows_digit(names[k])
}

/// No attachment that keeps its name already carries a name that the
/// numbering hands out to another one of the batch.
pub open spec fn no_name_taken(names: Seq<Seq<char>>) -> bool {
    forall|a: int, b: int|
        0 <= a < names.len() && 0 <= b < names.len() && occurrence(names, a) <= 1 && occurrence(
            names,
            b,
        ) > 1 ==> #[trigger] names[a] != #[trigger] unique_name(names, b)
}

/// Whether the names are pairwise distinct.
pub open spec fn pairwise_distinct(names: Seq<Seq<char>>) -> bool {
    forall|a: int, b: int| 0 <= a < b < names.len() ==> names[a] != names[b]
}

/// The names that a batch gets.
pub open spec fn unique_names(names: Seq<Seq<char>>) -> Seq<Seq<char>> {
    Seq::new(names.len(), |k: int| unique_name(names, k))
}

/// Two numbers written out, each followed by nothing or by something that
/// starts with a dot: if the texts are equal, so are the numbers.
proof fn lemma_number_then_dot(
    a: nat,
    x: Option<Seq<char>>,
    b: nat,
    y: Option<Seq<char>>,
)
    requires
        decimal(a) + dot_extension(x) == decimal(b) + dot_extension(y),
    ensures
        a == b,
{
    let da = decimal(a);
    let db = decimal(b);
    let u = da + dot_extension(x);
    let v = db + dot_extension(y);
    lemma_decimal_digits(a);
    lemma_decimal_digits(b);
    if da.len() < db.len() {
        let k = da.len() as int;
        assert(v[k] == db[k]);
        assert(is_digit(db[k]));
        assert(u.len() == v.len());
        assert(u[k] == dot_extension(x)[0]);
    } else if db.len() < da.len() {
        let k = db.len() as int;
        assert(u[k] == da[k]);
        assert(is_digit(da[k]));
        assert(u.len() == v.len());
        assert(v[k] == dot_extension(y)[0]);
    } else {
        assert(da =~= u.take(da.len() as int));
        assert(db =~= v.take(db.len() as int));
        lemma_decimal_injective(a, b);
    }
}

/// Names numbered from the same stem differ as soon as the numbers do.
proof fn lemma_numbered_same_stem(
    stem: Seq<char>,
    a: nat,
    x: Option<Seq<char>>,
    b: nat,
    y: Option<Seq<char>>,
)
    requires
        numbered_name(stem, a, x) == numbered_name(stem, b, y),
    ensures
        a == b,
{
    let u = numbered_name(stem, a, x);
    let v = numbered_name(stem, b, y);
    let n = stem.len() as int + 1;
    assert(u.skip(n) =~= decimal(a) + dot_extension(x));
    assert(v.skip(n) =~= decimal(b) + dot_extension(y));
    lemma_number_then_dot(a, x, b, y);
}

/// A stem, an underscore and a number: equal texts have equal stems.
proof fn lemma_base_stems(s: Seq<char>, a: nat, t: Seq<char>, b: nat)
    requires
        s + seq!['_'] + decimal(a) == t + seq!['_'] + decimal(b),
    ensures
        s == t,
{
    let u = s + seq!['_'] + decimal(a);
    let v = t + seq!['_'] + decimal(b);
    lemma_decimal_digits(a);
    lemma_decimal_digits(b);
    assert(u.len() == v.len());
    if s.len() < t.len() {
        let k = t.len() as int;
        assert(v[k] == '_');
        assert(u[k] == decimal(a)[k - s.len() - 1]);
        assert(is_digit(decimal(a)[k - s.len() - 1]));
    } else if t.len() < s.len() {
        let k = s.len() as int;
        assert(u[k] == '_');
        assert(v[k] == decimal(b)[k - t.len() - 1]);
        assert(is_digit(decimal(b)[k - t.len() - 1]));
    } else {
        assert(s =~= u.take(s.len() as int));
        assert(t =~= v.take(t.len() as int));
    }
}

/// A numbered name with an extension never equals one without, where the
/// stem of the latter holds no dot but a leading one, or at least no last
/// dot directly behind a digit.
proof fn lemma_numbered_mixed(s: Seq<char>, a: nat, e: Seq<char>, t: Seq<char>, b: nat)
    requires
        dot_free_from(e, 0),
        dot_free_from(t, 1) || !last_dot_follows_digit(t),
    ensures
        numbered_name(s, a, Some(e)) != numbered_name(t, b, None),
{
    let u = numbered_name(s, a, Some(e));
    let v = numbered_name(t, b, None);
    lemma_decimal_digits(a);
    lemma_decimal_digits(b);
    let p = s.len() as int + 1 + decimal(a).len() as int;
    assert(u[p] == '.');
    if u == v {
        assert(v[p] == '.');
        if p < t.len() {
            assert(v[p] == t[p]);
            if !dot_free_from(t, 1) {
                assert(t[p - 1] == v[p - 1]);
                assert(u[p - 1] == decimal(a)[decimal(a).len() - 1]);
                assert(is_digit(decimal(a)[decimal(a).len() - 1]));
                assert forall|k: int| p + 1 <= k < t.len() implies #[trigger] t[k] != '.' by {
                    assert(t[k] == v[k]);
                    assert(u[k] == e[k - p - 1]);
                }
                assert(last_dot_follows_digit(t));
            }
        } else if p == t.len() {
            assert(v[p] == '_');
        } else {
            assert(v[p] == decimal(b)[p - t.len() - 1]);
            assert(is_digit(decimal(b)[p - t.len() - 1]));
        }
    }
}

/// Numbered names of different stems differ.
proof fn lemma_numbered_stems(
    s: Seq<char>,
    a: nat,
    x: Option<Seq<char>>,
    t: Seq<char>,
    b: nat,
    y: Option<Seq<char>>,
)
    requires
        numbered_name(s, a, x) == numbered_name(t, b, y),
        x matches Some(e) ==> dot_free_from(e, 0),
        y matches Some(e) ==> dot_free_from(e, 0),
        x is None ==> dot_free_from(s, 1) || !last_dot_follows_digit(s),
        y is None ==> dot_free_from(t, 1) || !last_dot_follows_digit(t),
    ensures
        s == t,
{
    let u = numbered_name(s, a, x);
    let v = numbered_name(t, b, y);
    let bu = s + seq!['_'] + decimal(a);
    let bv = t + seq!['_'] + decimal(b);
    match (x, y) {
        (None, None) => {
            assert(u =~= bu);
            assert(v =~= bv);
            lemma_base_stems(s, a, t, b);
        },
        (Some(e), None) => {
            lemma_numbered_mixed(s, a, e, t, b);
        },
        (None, Some(f)) => {
            lemma_numbered_mixed(t, b, f, s, a);
        },
        (Some(e), Some(f)) => {
            let p = bu.len() as int;
            let q = bv.len() as int;
            assert(u[p] == '.');
            assert(v[q] == '.');
            assert(u.len() == v.len());
            if p < q {
                assert(u[q] == e[q - p - 1]);
            } else if q < p {
                assert(v[p] == f[p - q - 1]);
            } else {
                assert(bu =~= u.take(p));
                assert(bv =~= v.take(q));
                lemma_base_stems(s, a, t, b);
            }
        },
    }
}

/// Among `n` names at most `n` have a given stem.
proof fn lemma_stem_count_bound(names: Seq<Seq<char>>, stem: Seq<char>, n: int)
    requires
        0 <= n,
    ensures
        stem_count(names, stem, n) <= n,
    decreases n,
{
    if n > 0 {
        lemma_stem_count_bound(names, stem, n - 1);
    }
}

/// Counting the names of a stem never goes down.
proof fn lemma_stem_count_grows(names: Seq<Seq<char>>, stem: Seq<char>, m: int, n: int)
    requires
        m <= n,
    ensures
        stem_count(names, stem, m) <= stem_count(names, stem, n),
    decreases n - m,
{
    if m < n {
        lemma_stem_count_grows(names, stem, m, n - 1);
    }
}

/// Of two names with the same stem the later one has the higher number.
proof fn lemma_occurrence_grows(names: Seq<Seq<char>>, a: int, b: int)
    requires
        0 <= a < b < names.len(),
        stem_of(names[a]) == stem_of(names[b]),
    ensures
        1 <= occurrence(names, a) < occurrence(names, b),
{
    let stem = stem_of(names[a]);
    lemma_stem_count_grows(names, stem, a + 1, b);
    lemma_stem_count_grows(names, stem, 0, a);
}

/// The names that a batch gets are pairwise distinct, where none is taken
/// by the numbering and no numbered name without file stem ends like a
/// numbered name.
proof fn lemma_unique_names_distinct(names: Seq<Seq<char>>)
    requires
        stemless_names_apart(names),
        no_name_taken(names),
        forall|k: int|
            0 <= k < names.len() ==> extension_is_plain(#[trigger] names[k]) && bare_stem_is_plain(
                names[k],
            ),
    ensures
        pairwise_distinct(unique_names(names)),
{
    let out = unique_names(names);
    assert forall|a: int, b: int| 0 <= a < b < out.len() implies out[a] != out[b] by {
        let sa = stem_of(names[a]);
        let sb = stem_of(names[b]);
        let oa = occurrence(names, a);
        let ob = occurrence(names, b);
        assert(extension_is_plain(names[a]) && bare_stem_is_plain(names[a]));
        assert(extension_is_plain(names[b]) && bare_stem_is_plain(names[b]));
        if sa == sb {
            lemma_occurrence_grows(names, a, b);
        }
        if oa <= 1 && ob <= 1 {
        } else if oa <= 1 {
            assert(names[a] != unique_name(names, b));
        } else if ob <= 1 {
            assert(names[b] != unique_name(names, a));
        } else if out[a] == out[b] {
            let xa = path_extension(names[a]);
            let xb = path_extension(names[b]);
            lemma_numbered_stems(sa, oa, xa, sb, ob, xb);
            lemma_numbered_same_stem(sa, oa, xa, ob, xb);
        }
    }
}

/// Gives every attachment of a batch a file name of its own and keeps
/// everything else, the order included. The first attachment of a stem
/// keeps its name; the second becomes `stem_2.ext`, the third
/// `stem_3.ext`, and so on, without the dot where there is no extension.
///
/// The new names are pairwise distinct unless an attachment that keeps its
/// name carries one that the numbering hands out (`a.png`, `a_2.png`,
/// `a.png`). For a numbered name that has neither extension nor file stem
/// this is shown unless its last dot stands directly behind a digit.
pub fn ensure_unique_filenames(attachments: Vec<Attachment>) -> (out: Vec<Attachment>)
    ensures
        out.len() == attachments.len(),
        forall|k: int|
            0 <= k < out.len() ==> {
                &&& (#[trigger] out[k])@.id == attachments[k]@.id
                &&& out[k]@.url == attachments[k]@.url
                &&& out[k]@.filename == unique_name(filenames(attachments@), k)
            },
        filenames(out@) == unique_names(filenames(attachments@)),
        stemless_names_apart(filenames(attachments@)) && no_name_taken(filenames(attachments@))
            ==> pairwise_distinct(filenames(out@)),
{
    let ghost names = filenames(attachments@);
    let mut out: Vec<Attachment> = Vec::new();
    let mut counters: StringHashMap<u64> = StringHashMap::new();
    let mut i: usize = 0;
    while i < attachments.len()
        invariant
            i <= attachments.len(),
            names == filenames(attachments@),
            out.len() == i,
            forall|s: Seq<char>| #[trigger]
                counters@.contains_key(s) ==> counters@[s] == stem_count(names, s, i as int),
            forall|s: Seq<char>|
                !(#[trigger] counters@.contains_key(s)) ==> stem_count(names, s, i as int) == 0,
            forall|k: int|
                0 <= k < i ==> {
                    &&& (#[trigger] out[k])@.id == attachments[k]@.id
                    &&& out[k]@.url == attachments[k]@.url
                    &&& out[k]@.filename == unique_name(names, k)
                },
            forall|k: int|
                0 <= k < i ==> extension_is_plain(#[trigger] names[k]) && bare_stem_is_plain(
                    names[k],
                ),
        decreases attachments.len() - i,
    {
        let item = &attachments[i];
        assert(names[i as int] == item.filename@);
        let stem = match file_stem(item.filename.as_str()) {
            Some(s) => s,
            None => item.filename.clone(),
        };
        let ext = file_extension(item.filename.as_str());
        assert(stem@ == stem_of(names[i as int]));
        let seen: u64 = match counters.get(stem.as_str()) {
            Some(c) => *c,
            None => 0,
        };
        proof {
            lemma_stem_count_bound(names, stem@, i as int);
        }
        let count: u64 = seen + 1;
        assert(count == occurrence(names, i as int));
        let filename = if count > 1 {
            let mut name = stem.clone();
            name.append("_");
            push_decimal(&mut name, count);
            if let Some(e) = &ext {
                name.append(".");
                name.append(e.as_str());
            }
            proof {
                reveal_strlit("_");
                reveal_strlit(".");
                assert("_"@ =~= seq!['_']);
                assert("."@ =~= seq!['.']);
                assert(name@ =~= numbered_name(stem@, count as nat, path_extension(names[i as int])));
            }
            name
        } else {
            item.filename.clone()
        };
        out.push(Attachment { id: item.id.clone(), url: item.url.clone(), filename });
        counters.insert(stem, count);
        i += 1;
    }
    proof {
        assert(filenames(out@) =~= unique_names(names));
        if stemless_names_apart(names) && no_name_taken(names) {
            lemma_unique_names_distinct(names);
        }
    }
    out
}

/// An attachment as a job record lists it.
#[derive(Debug)]
pub struct AttachmentItem {
    /// Where the file can be fetched.
    pub url: String,
    /// The file name that the user gave it.
    pub filename: String,
    /// Where the product was put, once there is one.
    pub processed_path: Option<String>,
}

impl AttachmentItem {
    /// The entry for an attachment that has not been worked on.
    pub fn of(attachment: &Attachment) -> (r: AttachmentItem)
        ensures
            r.url@ == attachment.url@,
            r.filename@ == attachment.filename@,
            r.processed_path is None,
    {
        AttachmentItem {
            url: attachment.url.clone(),
            filename: attachment.filename.clone(),
            processed_path: None,
        }
    }
}

/// An attachment after the attempt to download it: its content, or the
/// error of the download.
#[derive(Debug)]
pub struct AttachmentMemory {
    pub meta: Attachment,
    pub content_type: Option<String>,
    pub bytes: Vec<u8>,
    /// The error of the download; the content is empty then.
    pub error: Option<String>,
    /// The stem of the file name, from which the names of the products are
    /// made.
    pub filename_stem: String,
    pub filename_extension: Option<String>,
}

/// What a download brought: the content type, if the server named one,
/// and the content.
#[derive(Debug)]
pub struct Download {
    pub content_type: Option<String>,
    pub bytes: Vec<u8>,
}

impl AttachmentMemory {
    /// The record of an attachment whose download has not been tried: no
    /// content, no error, and the stem and extension of its file name.
    pub fn new(meta: Attachment) -> (r: AttachmentMemory)
        ensures
            r.meta == meta,
            r.content_type is None,
            r.bytes@.len() == 0,
            r.error is None,
            r.filename_stem@ == stem_of(meta.filename@),
            crate::text::opt_text(r.filename_extension) == path_extension(meta.filename@),
    {
        let filename_stem = match file_stem(meta.filename.as_str()) {
            Some(s) => s,
            None => meta.filename.clone(),
        };
        let filename_extension = file_extension(meta.filename.as_str());
        AttachmentMemory {
            meta,
            content_type: None,
            bytes: Vec::new(),
            error: None,
            filename_stem,
            filename_extension,
        }
    }

    /// The record of an attachment after its download: what the download
    /// brought, or, where it failed, its error and no content. A failed
    /// download is kept on the record and stops nothing.
    pub fn with_download(meta: Attachment, outcome: Result<Download, String>) -> (r:
        AttachmentMemory)
        ensures
            r.meta == meta,
            r.filename_stem@ == stem_of(meta.filename@),
            crate::text::opt_text(r.filename_extension) == path_extension(meta.filename@),
            match outcome {
                Ok(d) => r.error is None && r.bytes == d.bytes && r.content_type == d.content_type,
                Err(e) => r.error == Some(e) && r.bytes@.len() == 0 && r.content_type is None,
            },
    {
        let mut r = AttachmentMemory::new(meta);
        match outcome {
            Ok(d) => {
                r.content_type = d.content_type;
                r.bytes = d.bytes;
            },
            Err(e) => {
                r.error = Some(e);
            },
        }
        r
    }

    /// Whether the transform runs on the attachment: it does unless the
    /// download failed.
    pub fn needs_transform(&self) -> (r: bool)
        ensures
            r == self.error is None,
    {
        self.error.is_none()
    }
}

/// How many downloads of one batch run at the same time.
pub const DOWNLOAD_CONCURRENCY: usize = 4;

/// How many downloads run at the same time when the caller asks for
/// `requested`: at least one.
pub fn download_permits(requested: usize) -> (r: usize)
    ensures
        r == if requested == 0 {
            1
        } else {
            requested as int
        },
{
    if requested == 0 {
        1
    } else {
        requested
    }
}

/// The file name with its extension replaced: the stem of the name, a dot
/// and the new extension. A name without a file stem gives the bare
/// extension behind a dot.
pub fn change_extension(filename: &str, new_ext: &str) -> (r: String)
    ensures
        r@ == (match path_file_stem(filename@) {
            Some(s) => s,
            None => Seq::empty(),
        }) + seq!['.'] + new_ext@,
{
    let mut out = match file_stem(filename) {
        Some(s) => s,
        None => String::new(),
    };
    proof {
        reveal_strlit(".");
        assert("."@ =~= seq!['.']);
    }
    out.append(".");
    out.append(new_ext);
    out
}

} // verus!
