//! Products: the files that a processor makes of one attachment, their
//! names by pool, the report that stands in for a file that could not be
//! made, and the texts of the status message.
use crate::text::{decimal, digit_char, opt_text, push_decimal};
use vstd::hash_map::StringHashMap;
use vstd::prelude::*;

verus! {

/// What the BLP pool converts to.
#[derive(Clone, Copy, Debug, PartialEq, Eq, Structural)]
pub enum ConversionTarget {
    /// Raster image to BLP.
    BLP,
    /// BLP to PNG.
    PNG,
}

/// The direction of a conversion, as older job records name it.
#[derive(Clone, Copy, Debug, PartialEq, Eq, Structural)]
pub enum ConversionType {
    ToBLP,
    ToPNG,
}

impl ConversionType {
    /// The target of the conversion.
    pub fn target(&self) -> (r: ConversionTarget)
        ensures
            r == match *self {
                ConversionType::ToBLP => ConversionTarget::BLP,
                ConversionType::ToPNG => ConversionTarget::PNG,
            },
    {
        match self {
            ConversionType::ToBLP => ConversionTarget::BLP,
            ConversionType::ToPNG => ConversionTarget::PNG,
        }
    }

    /// The name under which the direction is stored.
    pub fn as_str(&self) -> (s: &'static str)
        ensures
            s@ == match *self {
                ConversionType::ToBLP => "toblp"@,
                ConversionType::ToPNG => "topng"@,
            },
    {
        match self {
            ConversionType::ToBLP => "toblp",
            ConversionType::ToPNG => "topng",
        }
    }
}

impl ConversionTarget {
    /// The name under which the target is stored.
    pub open spec fn name(self) -> Seq<char> {
        match self {
            ConversionTarget::BLP => "BLP"@,
            ConversionTarget::PNG => "PNG"@,
        }
    }

    /// The target that is stored under the given name.
    pub fn from_name(name: &str) -> (r: Option<ConversionTarget>)
        ensures
            r matches Some(target) ==> target.name() == name@,
            r is None ==> forall|target: ConversionTarget| #[trigger] target.name() != name@,
    {
        if crate::text::str_eq(name, "BLP") {
            Some(ConversionTarget::BLP)
        } else if crate::text::str_eq(name, "PNG") {
            Some(ConversionTarget::PNG)
        } else {
            None
        }
    }

    /// The name under which the target is stored.
    pub fn as_str(&self) -> (s: &'static str)
        ensures
            s@ == match *self {
                ConversionTarget::BLP => "BLP"@,
                ConversionTarget::PNG => "PNG"@,
            },
    {
        match self {
            ConversionTarget::BLP => "BLP",
            ConversionTarget::PNG => "PNG",
        }
    }

    /// The extension of the files that the conversion makes, with its dot.
    pub open spec fn extension(self) -> Seq<char> {
        match self {
            ConversionTarget::BLP => ".blp"@,
            ConversionTarget::PNG => ".png"@,
        }
    }

    /// The name of the archive that holds the products of a conversion.
    pub fn archive_name(&self) -> (s: &'static str)
        ensures
            s@ == match *self {
                ConversionTarget::BLP => "converted_images.blp.zip"@,
                ConversionTarget::PNG => "converted_images.png.zip"@,
            },
    {
        match self {
            ConversionTarget::BLP => "converted_images.blp.zip",
            ConversionTarget::PNG => "converted_images.png.zip",
        }
    }
}

/// The name of the archive of the background removal.
pub const REMBG_ARCHIVE_NAME: &'static str = "processed.zip";

/// The name of the archive of the icon pool.
pub const ICON_ARCHIVE_NAME: &'static str = "icons.zip";

/// The name of the preview that the icon pool sends along.
pub const ICON_COLLAGE_NAME: &'static str = "icon_collage.png";

/// Quality with which the icon pool encodes BLP.
pub const ICON_QUALITY: u8 = 95;

/// The name of the product of a conversion: the stem and the extension of
/// the target.
pub fn converted_name(stem: &str, target: ConversionTarget) -> (r: String)
    ensures
        r@ == stem@ + target.extension(),
{
    let mut out = String::from_str(stem);
    match target {
        ConversionTarget::BLP => out.append(".blp"),
        ConversionTarget::PNG => out.append(".png"),
    }
    out
}

/// The name of the image without background: `<stem>_no_bg.png`.
pub fn cutout_name(stem: &str) -> (r: String)
    ensures
        r@ == stem@ + "_no_bg.png"@,
{
    let mut out = String::from_str(stem);
    out.append("_no_bg.png");
    out
}

/// The name of the mask: `<stem>_mask.png`.
pub fn mask_name(stem: &str) -> (r: String)
    ensures
        r@ == stem@ + "_mask.png"@,
{
    let mut out = String::from_str(stem);
    out.append("_mask.png");
    out
}

/// The name of the report on an attachment that gave no product:
/// `<stem>.error.txt`.
pub fn error_name(stem: &str) -> (r: String)
    ensures
        r@ == stem@ + ".error.txt"@,
{
    let mut out = String::from_str(stem);
    out.append(".error.txt");
    out
}

/// The six overlays of a Warcraft III icon.
#[derive(Clone, Copy, Debug, PartialEq, Eq, Structural)]
pub enum IconVariant {
    Btn,
    DisBtn,
    Atc,
    DisAtc,
    Pas,
    DisPas,
}

/// Number of overlays.
pub const ICON_VARIANTS: usize = 6;

impl IconVariant {
    /// The variant with the given index.
    pub open spec fn at(i: int) -> IconVariant {
        if i == 0 {
            IconVariant::Btn
        } else if i == 1 {
            IconVariant::DisBtn
        } else if i == 2 {
            IconVariant::Atc
        } else if i == 3 {
            IconVariant::DisAtc
        } else if i == 4 {
            IconVariant::Pas
        } else {
            IconVariant::DisPas
        }
    }

    /// The variant with the given index, in the order in which the icons
    /// of one input are made and laid out.
    pub fn from_index(i: usize) -> (r: Option<IconVariant>)
        ensures
            r is Some <==> i < ICON_VARIANTS,
            r matches Some(v) ==> v == IconVariant::at(i as int) && v.index() == i,
    {
        match i {
            0 => Some(IconVariant::Btn),
            1 => Some(IconVariant::DisBtn),
            2 => Some(IconVariant::Atc),
            3 => Some(IconVariant::DisAtc),
            4 => Some(IconVariant::Pas),
            5 => Some(IconVariant::DisPas),
            _ => None,
        }
    }

    /// The index of the variant.
    pub open spec fn index(self) -> int {
        match self {
            IconVariant::Btn => 0,
            IconVariant::DisBtn => 1,
            IconVariant::Atc => 2,
            IconVariant::DisAtc => 3,
            IconVariant::Pas => 4,
            IconVariant::DisPas => 5,
        }
    }

    /// Whether the variant shows the button disabled.
    pub open spec fn disabled(self) -> bool {
        self == IconVariant::DisBtn || self == IconVariant::DisAtc || self
            == IconVariant::DisPas
    }

    /// Whether the variant shows the button disabled.
    pub fn is_disabled(&self) -> (r: bool)
        ensures
            r == self.disabled(),
    {
        match self {
            IconVariant::DisBtn => true,
            IconVariant::DisAtc => true,
            IconVariant::DisPas => true,
            _ => false,
        }
    }

    /// The prefix of the file name.
    pub open spec fn prefix_text(self) -> Seq<char> {
        match self {
            IconVariant::Btn => "BTN"@,
            IconVariant::DisBtn => "DISBTN"@,
            IconVariant::Atc => "ATC"@,
            IconVariant::DisAtc => "DISATC"@,
            IconVariant::Pas => "PAS"@,
            IconVariant::DisPas => "DISPAS"@,
        }
    }

    /// The prefix of the file name.
    pub fn prefix(&self) -> (s: &'static str)
        ensures
            s@ == self.prefix_text(),
    {
        match self {
            IconVariant::Btn => "BTN",
            IconVariant::DisBtn => "DISBTN",
            IconVariant::Atc => "ATC",
            IconVariant::DisAtc => "DISATC",
            IconVariant::Pas => "PAS",
            IconVariant::DisPas => "DISPAS",
        }
    }

    /// The folder of the archive that holds the variant.
    pub open spec fn folder_text(self) -> Seq<char> {
        if self.disabled() {
            "ReplaceableTextures/CommandButtonsDisabled/"@
        } else {
            "ReplaceableTextures/CommandButtons/"@
        }
    }

    /// The folder of the archive that holds the variant.
    pub fn folder(&self) -> (s: &'static str)
        ensures
            s@ == self.folder_text(),
    {
        if self.is_disabled() {
            "ReplaceableTextures/CommandButtonsDisabled/"
        } else {
            "ReplaceableTextures/CommandButtons/"
        }
    }

    /// The path of the icon in the archive:
    /// `ReplaceableTextures/CommandButtons/<PREFIX><stem>.blp`, or the same
    /// under `CommandButtonsDisabled` for a disabled variant.
    pub open spec fn path_text(self, stem: Seq<char>) -> Seq<char> {
        self.folder_text() + self.prefix_text() + stem + ".blp"@
    }

    /// The path of the icon in the archive.
    pub fn archive_path(&self, stem: &str) -> (r: String)
        ensures
            r@ == self.path_text(stem@),
    {
        let mut out = String::from_str(self.folder());
        out.append(self.prefix());
        out.append(stem);
        out.append(".blp");
        out
    }
}

/// Where an attachment failed.
#[derive(Clone, Copy, Debug, PartialEq, Eq, Structural)]
pub enum FailureKind {
    /// The download.
    Download,
    /// The transform.
    Transform,
}

impl FailureKind {
    /// The line that opens the report, up to the file name.
    pub open spec fn heading(self) -> Seq<char> {
        match self {
            FailureKind::Download => "Error downloading file: "@,
            FailureKind::Transform => "Error converting file: "@,
        }
    }
}

/// What `chrono` writes for the instant `millis` milliseconds after the
/// epoch, in UTC, under the format `%Y-%m-%d %H:%M:%S UTC`; `None` where
/// the instant is out of the range of `chrono::DateTime`.
pub uninterp spec fn utc_text(millis: int) -> Option<Seq<char>>;

/// `chrono::DateTime::from_timestamp_millis`, and on its result `format`
/// with `%Y-%m-%d %H:%M:%S UTC`, written out.
#[verifier::external_body]
fn format_utc(millis: i64) -> (r: Option<String>)
    ensures
        opt_text(r) == utc_text(millis as int),
{
    chrono::DateTime::from_timestamp_millis(millis).map(
        |t| t.format("%Y-%m-%d %H:%M:%S UTC").to_string(),
    )
}

/// The time stamp that a report carries: the instant in UTC, or `unknown`
/// where it cannot be written.
pub open spec fn stamp_text(written: Option<Seq<char>>) -> Seq<char> {
    match written {
        Some(t) => t,
        None => "unknown"@,
    }
}

/// The text of the report on an attachment that gave no product: what
/// failed on which file, the details of the error, and the time.
pub open spec fn report_text(
    kind: FailureKind,
    filename: Seq<char>,
    details: Seq<char>,
    stamp: Seq<char>,
) -> Seq<char> {
    kind.heading() + filename + "\n\nError details:\n"@ + details + "\n\nTimestamp: "@ + stamp
}

/// Writes the report on an attachment that gave no product.
pub fn error_report(kind: FailureKind, filename: &str, details: &str, stamp: Option<String>) -> (r:
    String)
    ensures
        r@ == report_text(kind, filename@, details@, stamp_text(opt_text(stamp))),
{
    let mut out = match kind {
        FailureKind::Download => String::from_str("Error downloading file: "),
        FailureKind::Transform => String::from_str("Error converting file: "),
    };
    out.append(filename);
    out.append("\n\nError details:\n");
    out.append(details);
    out.append("\n\nTimestamp: ");
    match stamp {
        Some(t) => out.append(t.as_str()),
        None => out.append("unknown"),
    }
    out
}

/// The product that stands in for an attachment that failed at `now`
/// (milliseconds since the epoch): the file `<stem>.error.txt` with the
/// report as its content.
pub fn error_product(
    stem: &str,
    filename: &str,
    kind: FailureKind,
    details: &str,
    now: i64,
) -> (r: (String, Vec<u8>))
    ensures
        r.0@ == stem@ + ".error.txt"@,
        r.1@ == vstd::utf8::encode_utf8(
            report_text(kind, filename@, details@, stamp_text(utc_text(now as int))),
        ),
{
    let report = error_report(kind, filename, details, format_utc(now));
    (error_name(stem), report.as_str().as_bytes_vec())
}

/// Two decimal digits for a number below 100.
pub open spec fn two_digits(n: nat) -> Seq<char> {
    seq![digit_char((n / 10) as int), digit_char((n % 10) as int)]
}

/// Hundredths of a second in `millis` milliseconds, rounded to the
/// nearest, halves up.
pub open spec fn hundredths(millis: nat) -> nat {
    millis / 10 + if millis % 10 >= 5 {
        1nat
    } else {
        0nat
    }
}

/// A duration in seconds with two decimals, such as `1.50`.
pub open spec fn seconds_text(millis: nat) -> Seq<char> {
    decimal(hundredths(millis) / 100) + seq!['.'] + two_digits(hundredths(millis) % 100)
}

/// Writes a duration in seconds with two decimals.
pub fn format_seconds(millis: u64) -> (r: String)
    ensures
        r@ == seconds_text(millis as nat),
{
    let h: u64 = millis / 10 + if millis % 10 >= 5 {
        1
    } else {
        0
    };
    let mut out = String::new();
    push_decimal(&mut out, h / 100);
    proof {
        reveal_strlit(".");
        assert("."@ =~= seq!['.']);
        crate::text::lemma_decimal_single(((h % 100) / 10) as nat);
        crate::text::lemma_decimal_single(((h % 100) % 10) as nat);
    }
    out.append(".");
    push_decimal(&mut out, (h % 100) / 10);
    push_decimal(&mut out, (h % 100) % 10);
    assert(out@ =~= seconds_text(millis as nat));
    out
}

/// Milliseconds from `created` to `now`, zero where `now` lies before.
pub open spec fn elapsed_millis_spec(created: i64, now: i64) -> nat {
    if now >= created {
        (now - created) as nat
    } else {
        0
    }
}

/// Milliseconds from `created` to `now`, zero where `now` lies before.
pub fn elapsed_millis(created: i64, now: i64) -> (r: u64)
    ensures
        r == elapsed_millis_spec(created, now),
{
    if now >= created {
        (now as i128 - created as i128) as u64
    } else {
        0
    }
}

/// How a conversion is described in the status message.
pub open spec fn conversion_text(target: ConversionTarget, quality: u8) -> Seq<char> {
    match target {
        ConversionTarget::BLP => "to BLP (quality: "@ + decimal(quality as nat) + ")"@,
        ConversionTarget::PNG => "to PNG"@,
    }
}

/// Describes a conversion for the status message.
pub fn describe_conversion(target: ConversionTarget, quality: u8) -> (r: String)
    ensures
        r@ == conversion_text(target, quality),
{
    match target {
        ConversionTarget::BLP => {
            let mut out = String::from_str("to BLP (quality: ");
            push_decimal(&mut out, quality as u64);
            out.append(")");
            out
        },
        ConversionTarget::PNG => String::from_str("to PNG"),
    }
}

/// How a background removal is described in the status message.
pub open spec fn removal_text(threshold: u8) -> Seq<char> {
    "for background removal (threshold: "@ + decimal(threshold as nat) + ")"@
}

/// Describes a background removal for the status message.
pub fn describe_removal(threshold: u8) -> (r: String)
    ensures
        r@ == removal_text(threshold),
{
    let mut out = String::from_str("for background removal (threshold: ");
    push_decimal(&mut out, threshold as u64);
    out.append(")");
    out
}

/// How the icon pool describes its work in the status message.
pub const ICON_DESCRIPTION: &'static str = "converted to icons";

/// The text of the status message while the job waits: how many images
/// were taken in and what will be done to them.
pub open spec fn queued_text(count: nat, description: Seq<char>) -> Seq<char> {
    "Added "@ + decimal(count) + " image(s) to conversion queue "@ + description + "\n Processing..."@
}

/// Writes the text of the status message while the job waits.
pub fn status_text(count: usize, description: &str) -> (r: String)
    ensures
        r@ == queued_text(count as nat, description@),
{
    let mut out = String::from_str("Added ");
    push_decimal(&mut out, count as u64);
    out.append(" image(s) to conversion queue ");
    out.append(description);
    out.append("\n Processing...");
    out
}

/// The text of the final message: how many products were made, of what
/// kind, whether they come in an archive, and how long the job took from
/// its creation.
pub open spec fn completed_text(
    count: nat,
    description: Seq<char>,
    zipped: bool,
    millis: nat,
) -> Seq<char> {
    "Converted "@ + decimal(count) + " image(s) "@ + description + (if zipped {
        " (zipped)"@
    } else {
        Seq::empty()
    }) + "\n Completed in "@ + seconds_text(millis) + "s"@
}

/// Writes the text of the final message.
pub fn completion_text(count: usize, description: &str, zipped: bool, millis: u64) -> (r: String)
    ensures
        r@ == completed_text(count as nat, description@, zipped, millis as nat),
{
    let mut out = String::from_str("Converted ");
    push_decimal(&mut out, count as u64);
    out.append(" image(s) ");
    out.append(description);
    let ghost before = out@;
    if zipped {
        out.append(" (zipped)");
    }
    assert(out@ =~= before + (if zipped {
        " (zipped)"@
    } else {
        Seq::empty()
    }));
    out.append("\n Completed in ");
    let seconds = format_seconds(millis);
    out.append(seconds.as_str());
    out.append("s");
    out
}

/// The text that tells the user that there is nothing to work on.
pub const NO_ATTACHMENTS_TEXT: &'static str = "No attachments found \u{2014} nothing to convert.";

/// The text that tells the user that the background removal cannot run.
pub const REMBG_UNAVAILABLE_TEXT: &'static str =
    "**Background removal is currently unavailable**\n\nONNX Runtime is not installed on the server.\nPlease contact the administrator to run: `./signal-download-models.sh`";

/// How many of the first `n` names are `name`.
pub open spec fn name_count(names: Seq<Seq<char>>, name: Seq<char>, n: int) -> nat
    decreases n,
{
    if n <= 0 {
        0
    } else {
        name_count(names, name, n - 1) + if names[n - 1] == name {
            1nat
        } else {
            0nat
        }
    }
}

/// Among `n` names at most `n` are a given name.
proof fn lemma_name_count_bound(names: Seq<Seq<char>>, name: Seq<char>, n: int)
    requires
        0 <= n,
    ensures
        name_count(names, name, n) <= n,
    decreases n,
{
    if n > 0 {
        lemma_name_count_bound(names, name, n - 1);
    }
}

/// The position of the last dot among the first `n` characters of the
/// name.
pub open spec fn last_dot(name: Seq<char>, n: int) -> Option<int>
    decreases n,
{
    if n <= 0 {
        None
    } else if name[n - 1] == '.' {
        Some(n - 1)
    } else {
        last_dot(name, n - 1)
    }
}

/// The name of a product whose name came before: the running number goes
/// in front of the last dot, behind an underscore, or at the end of a
/// name without dot. The first product of a name keeps it.
pub open spec fn recounted(name: Seq<char>, count: nat) -> Seq<char> {
    if count <= 1 {
        name
    } else {
        match last_dot(name, name.len() as int) {
            Some(d) => name.take(d) + "_"@ + decimal(count) + name.skip(d),
            None => name + "_"@ + decimal(count),
        }
    }
}

/// The names of the entries.
pub open spec fn entry_names(entries: Seq<(Seq<char>, Seq<u8>)>) -> Seq<Seq<char>> {
    Seq::new(entries.len(), |k: int| entries[k].0)
}

/// The products with every name that came before renamed by its running
/// number; the names are counted as they were, and the contents stay.
pub open spec fn recounted_entries(entries: Seq<(Seq<char>, Seq<u8>)>) -> Seq<
    (Seq<char>, Seq<u8>),
> {
    Seq::new(
        entries.len(),
        |k: int|
            (
                recounted(entries[k].0, name_count(entry_names(entries), entries[k].0, k + 1)),
                entries[k].1,
            ),
    )
}

/// The name with the running number, for a product whose name came
/// before.
pub fn recount_name(name: &str, count: u64) -> (r: String)
    ensures
        r@ == recounted(name@, count as nat),
{
    if count <= 1 {
        return String::from_str(name);
    }
    let chars = crate::text::to_chars(name);
    let n = chars.len();
    let mut i: usize = n;
    while i > 0 && chars[i - 1] != '.'
        invariant
            i <= n,
            n == chars@.len(),
            last_dot(chars@, n as int) == last_dot(chars@, i as int),
        decreases i,
    {
        i -= 1;
    }
    assert(name@.len() == n);
    if i == 0 {
        let mut out = String::from_str(name);
        out.append("_");
        push_decimal(&mut out, count);
        out
    } else {
        let d = i - 1;
        let mut out = String::from_str(name.substring_char(0, d));
        out.append("_");
        push_decimal(&mut out, count);
        out.append(name.substring_char(d, n));
        assert(name@.subrange(0, d as int) =~= name@.take(d as int));
        assert(name@.subrange(d as int, n as int) =~= name@.skip(d as int));
        out
    }
}

/// Renames every product whose name came before in the list, and keeps
/// order and contents.
pub fn rename_duplicates(files: Vec<(String, Vec<u8>)>) -> (out: Vec<(String, Vec<u8>)>)
    ensures
        crate::archive::entries_of(out@) == recounted_entries(crate::archive::entries_of(files@)),
{
    let ghost all = crate::archive::entries_of(files@);
    let ghost names = entry_names(all);
    let mut rest = files;
    let mut out: Vec<(String, Vec<u8>)> = Vec::new();
    let mut counts: StringHashMap<u64> = StringHashMap::new();
    assert(rest@ =~= files@.skip(0));
    while rest.len() > 0
        invariant
            all == crate::archive::entries_of(files@),
            names == entry_names(all),
            names.len() == files.len(),
            out.len() + rest.len() == files.len(),
            rest@ == files@.skip(out.len() as int),
            forall|s: Seq<char>| #[trigger]
                counts@.contains_key(s) ==> counts@[s] == name_count(names, s, out.len() as int),
            forall|s: Seq<char>|
                !(#[trigger] counts@.contains_key(s)) ==> name_count(names, s, out.len() as int)
                    == 0,
            forall|k: int|
                0 <= k < out.len() ==> (#[trigger] crate::archive::entries_of(out@)[k])
                    == recounted_entries(all)[k],
        decreases rest.len(),
    {
        let ghost i = out.len() as int;
        assert(rest@[0] == files@[i]);
        let (name, data) = rest.remove(0);
        assert(rest@ =~= files@.skip(i + 1));
        assert(name@ == names[i]);
        let before_it: u64 = match counts.get(name.as_str()) {
            Some(c) => *c,
            None => 0,
        };
        proof {
            lemma_name_count_bound(names, name@, i);
        }
        let count: u64 = before_it + 1;
        assert(count == name_count(names, name@, i + 1));
        let renamed = recount_name(name.as_str(), count);
        let ghost before = crate::archive::entries_of(out@);
        counts.insert(name, count);
        out.push((renamed, data));
        assert forall|j: int| 0 <= j < out.len() implies (#[trigger] crate::archive::entries_of(
            out@,
        )[j]) == recounted_entries(all)[j] by {
            if j < i {
                assert(crate::archive::entries_of(out@)[j] == before[j]);
            }
        }
    }
    assert(crate::archive::entries_of(out@) =~= recounted_entries(all));
    out
}

} // verus!
