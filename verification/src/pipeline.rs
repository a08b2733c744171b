//! The skeleton that the processors of all pools share, as decisions: what
//! a submit does with a command, what a worker does with the job it
//! claimed, which products an attachment gives, and how a job is settled
//! once its final message was sent.
//!
//! Downloads, transforms and sends happen elsewhere; their results come in
//! here as plain values.
use crate::archive::{package, should_archive, ArchiveError};
use crate::attachment::AttachmentMemory;
use crate::command::{CommandArgs, CommandKind};
use crate::product::{
    completion_text, converted_name, cutout_name, describe_conversion, describe_removal,
    error_product, mask_name, status_text, ConversionTarget, FailureKind, IconVariant,
    ICON_ARCHIVE_NAME, ICON_DESCRIPTION, ICON_VARIANTS, NO_ATTACHMENTS_TEXT,
    REMBG_ARCHIVE_NAME, REMBG_UNAVAILABLE_TEXT,
};
use crate::queue::JobRecord;
use vstd::prelude::*;

verus! {

/// The pools of workers, one for each job collection.
#[derive(Clone, Copy, Debug, PartialEq, Eq, Structural)]
pub enum Pool {
    Blp,
    Rembg,
    Icon,
}

/// Workers of a pool unless it is resized.
pub const DEFAULT_MAX_WORKERS: usize = 3;

impl Pool {
    /// The name by which the supervisor knows the pool.
    pub open spec fn key(self) -> Seq<char> {
        match self {
            Pool::Blp => "blp"@,
            Pool::Rembg => "rembg"@,
            Pool::Icon => "icon"@,
        }
    }

    /// The name by which the supervisor knows the pool.
    pub fn name(&self) -> (s: &'static str)
        ensures
            s@ == self.key(),
    {
        match self {
            Pool::Blp => "blp",
            Pool::Rembg => "rembg",
            Pool::Icon => "icon",
        }
    }

    /// The collection that holds the jobs of the pool.
    pub fn collection(&self) -> (s: &'static str)
        ensures
            s@ == match *self {
                Pool::Blp => "discord_command_blp"@,
                Pool::Rembg => "discord_command_rembg"@,
                Pool::Icon => "discord_command_icon"@,
            },
    {
        match self {
            Pool::Blp => "discord_command_blp",
            Pool::Rembg => "discord_command_rembg",
            Pool::Icon => "discord_command_icon",
        }
    }
}

/// The parameters of a job, by pool.
#[derive(Clone, Copy, Debug, PartialEq, Eq, Structural)]
pub enum JobParams {
    Blp { target: ConversionTarget, quality: u8, zip: bool },
    Rembg { threshold: u8, binary: bool, mask: bool, zip: bool },
    Icon,
}

impl JobParams {
    /// The parameters of the job that a command asks for.
    pub open spec fn of(args: CommandArgs) -> JobParams {
        match args.kind {
            CommandKind::Blp => JobParams::Blp {
                target: ConversionTarget::BLP,
                quality: args.quality,
                zip: args.zip,
            },
            CommandKind::Png => JobParams::Blp {
                target: ConversionTarget::PNG,
                quality: args.quality,
                zip: args.zip,
            },
            CommandKind::Rembg => JobParams::Rembg {
                threshold: args.threshold,
                binary: args.binary,
                mask: args.mask,
                zip: args.zip,
            },
            CommandKind::Icon => JobParams::Icon,
        }
    }

    /// The parameters of the job that a command asks for.
    pub fn from_args(args: &CommandArgs) -> (r: JobParams)
        ensures
            r == JobParams::of(*args),
    {
        match args.kind {
            CommandKind::Blp => JobParams::Blp {
                target: ConversionTarget::BLP,
                quality: args.quality,
                zip: args.zip,
            },
            CommandKind::Png => JobParams::Blp {
                target: ConversionTarget::PNG,
                quality: args.quality,
                zip: args.zip,
            },
            CommandKind::Rembg => JobParams::Rembg {
                threshold: args.threshold,
                binary: args.binary,
                mask: args.mask,
                zip: args.zip,
            },
            CommandKind::Icon => JobParams::Icon,
        }
    }

    /// The pool that serves the job.
    pub open spec fn pool_of(self) -> Pool {
        match self {
            JobParams::Blp { .. } => Pool::Blp,
            JobParams::Rembg { .. } => Pool::Rembg,
            JobParams::Icon => Pool::Icon,
        }
    }

    /// The pool that serves the job.
    pub fn pool(&self) -> (r: Pool)
        ensures
            r == self.pool_of(),
    {
        match self {
            JobParams::Blp { .. } => Pool::Blp,
            JobParams::Rembg { .. } => Pool::Rembg,
            JobParams::Icon => Pool::Icon,
        }
    }

    /// Whether the products go out in one archive: the job asks for it, or
    /// the pool always packs.
    pub open spec fn packs(self) -> bool {
        match self {
            JobParams::Blp { zip, .. } => zip,
            JobParams::Rembg { zip, .. } => zip,
            JobParams::Icon => true,
        }
    }

    /// Whether the products go out in one archive.
    pub fn zipped(&self) -> (r: bool)
        ensures
            r == self.packs(),
    {
        match self {
            JobParams::Blp { zip, .. } => should_archive(*zip, false),
            JobParams::Rembg { zip, .. } => should_archive(*zip, false),
            JobParams::Icon => should_archive(false, true),
        }
    }

    /// The name of the archive of the job.
    pub open spec fn archive_text(self) -> Seq<char> {
        match self {
            JobParams::Blp { target, .. } => match target {
                ConversionTarget::BLP => "converted_images.blp.zip"@,
                ConversionTarget::PNG => "converted_images.png.zip"@,
            },
            JobParams::Rembg { .. } => REMBG_ARCHIVE_NAME@,
            JobParams::Icon => ICON_ARCHIVE_NAME@,
        }
    }

    /// The name of the archive of the job.
    pub fn archive_name(&self) -> (s: &'static str)
        ensures
            s@ == self.archive_text(),
    {
        match self {
            JobParams::Blp { target, .. } => target.archive_name(),
            JobParams::Rembg { .. } => REMBG_ARCHIVE_NAME,
            JobParams::Icon => ICON_ARCHIVE_NAME,
        }
    }

    /// How the job is described in the status message.
    pub open spec fn description(self) -> Seq<char> {
        match self {
            JobParams::Blp { target, quality, .. } => crate::product::conversion_text(
                target,
                quality,
            ),
            JobParams::Rembg { threshold, .. } => crate::product::removal_text(threshold),
            JobParams::Icon => ICON_DESCRIPTION@,
        }
    }

    /// Describes the job for the status message.
    pub fn describe(&self) -> (r: String)
        ensures
            r@ == self.description(),
    {
        match self {
            JobParams::Blp { target, quality, .. } => describe_conversion(*target, *quality),
            JobParams::Rembg { threshold, .. } => describe_removal(*threshold),
            JobParams::Icon => String::from_str(ICON_DESCRIPTION),
        }
    }
}

/// What a submit does with a command.
#[derive(Debug)]
pub enum SubmitPlan {
    /// Answer with this text; no job is inserted.
    Reply { text: String },
    /// Post this status message, insert a pending job with these
    /// parameters and the id of the status message, and notify the pool.
    Enqueue { status: String, params: JobParams },
}

/// Decides what a submit does with a command for a message with
/// `attachments` attachments. Without attachments there is nothing to
/// work on, and a background removal without its model cannot run: both
/// get a direct reply and no job.
pub fn plan_submit(args: &CommandArgs, attachments: usize, rembg_available: bool) -> (r: SubmitPlan)
    ensures
        attachments == 0 ==> (r matches SubmitPlan::Reply { text } && text@
            == NO_ATTACHMENTS_TEXT@),
        attachments > 0 && args.kind == CommandKind::Rembg && !rembg_available ==> (
        r matches SubmitPlan::Reply { text } && text@ == REMBG_UNAVAILABLE_TEXT@),
        attachments > 0 && (args.kind != CommandKind::Rembg || rembg_available) ==> (
        r matches SubmitPlan::Enqueue { status, params } && params == JobParams::of(*args)
            && status@ == crate::product::queued_text(
            attachments as nat,
            JobParams::of(*args).description(),
        )),
{
    if attachments == 0 {
        return SubmitPlan::Reply { text: String::from_str(NO_ATTACHMENTS_TEXT) };
    }
    let unavailable = match args.kind {
        CommandKind::Rembg => !rembg_available,
        _ => false,
    };
    if unavailable {
        return SubmitPlan::Reply { text: String::from_str(REMBG_UNAVAILABLE_TEXT) };
    }
    let params = JobParams::from_args(args);
    let description = params.describe();
    SubmitPlan::Enqueue { status: status_text(attachments, description.as_str()), params }
}

/// What a worker does after its claim.
#[derive(Clone, Copy, Debug, PartialEq, Eq, Structural)]
pub enum WorkerStep {
    /// Nothing was claimed: the worker is idle.
    Idle,
    /// The job has no status message yet: post one, store its id, hand the
    /// job back as pending and notify the pool.
    PostStatus,
    /// Download, transform, package and send.
    Run,
}

/// Decides what a worker does with what its claim returned.
pub fn plan_claim(claimed: &Option<JobRecord>) -> (r: WorkerStep)
    ensures
        r == match *claimed {
            None => WorkerStep::Idle,
            Some(job) => if job.reply is None {
                WorkerStep::PostStatus
            } else {
                WorkerStep::Run
            },
        },
{
    match claimed {
        None => WorkerStep::Idle,
        Some(job) => {
            if job.reply.is_none() {
                WorkerStep::PostStatus
            } else {
                WorkerStep::Run
            }
        },
    }
}

/// The product that stands in for an attachment whose download failed:
/// the report on the failure, or nothing where the download went well.
pub fn download_failure(attachment: &AttachmentMemory, now: i64) -> (r: Option<
    (String, Vec<u8>),
>)
    ensures
        attachment.error is None <==> r is None,
        r matches Some(p) ==> {
            &&& p.0@ == attachment.filename_stem@ + ".error.txt"@
            &&& p.1@ == vstd::utf8::encode_utf8(
                crate::product::report_text(
                    FailureKind::Download,
                    attachment.meta.filename@,
                    attachment.error->0@,
                    crate::product::stamp_text(crate::product::utc_text(now as int)),
                ),
            )
        },
{
    match &attachment.error {
        None => None,
        Some(e) => Some(
            error_product(
                attachment.filename_stem.as_str(),
                attachment.meta.filename.as_str(),
                FailureKind::Download,
                e.as_str(),
                now,
            ),
        ),
    }
}

/// The report on an attachment whose transform failed at `now`.
pub fn transform_failure(attachment: &AttachmentMemory, details: &str, now: i64) -> (r: (
    String,
    Vec<u8>,
))
    ensures
        r.0@ == attachment.filename_stem@ + ".error.txt"@,
        r.1@ == vstd::utf8::encode_utf8(
            crate::product::report_text(
                FailureKind::Transform,
                attachment.meta.filename@,
                details@,
                crate::product::stamp_text(crate::product::utc_text(now as int)),
            ),
        ),
{
    error_product(
        attachment.filename_stem.as_str(),
        attachment.meta.filename.as_str(),
        FailureKind::Transform,
        details,
        now,
    )
}

/// The product of a conversion of one attachment: the converted file
/// under the stem of the attachment and the extension of the target, or
/// the report on the failure.
pub fn conversion_product(
    attachment: &AttachmentMemory,
    target: ConversionTarget,
    outcome: Result<Vec<u8>, String>,
    now: i64,
) -> (r: (String, Vec<u8>))
    ensures
        match outcome {
            Ok(bytes) => r.0@ == attachment.filename_stem@ + target.extension() && r.1 == bytes,
            Err(details) => r.0@ == attachment.filename_stem@ + ".error.txt"@ && r.1@
                == vstd::utf8::encode_utf8(
                crate::product::report_text(
                    FailureKind::Transform,
                    attachment.meta.filename@,
                    details@,
                    crate::product::stamp_text(crate::product::utc_text(now as int)),
                ),
            ),
        },
{
    match outcome {
        Ok(bytes) => (converted_name(attachment.filename_stem.as_str(), target), bytes),
        Err(details) => transform_failure(attachment, details.as_str(), now),
    }
}

/// What the segmentation made of one image: the image without its
/// background and the mask, both encoded as PNG.
#[derive(Debug)]
pub struct Cutout {
    pub image: Vec<u8>,
    pub mask: Vec<u8>,
}

/// The products of a background removal on one attachment: the image
/// without background, then the mask if the job asks for it; or the
/// report on the failure. Whether the mask goes out depends on the mask
/// flag alone, not on whether the edge is hard or soft.
pub fn removal_products(
    attachment: &AttachmentMemory,
    with_mask: bool,
    outcome: Result<Cutout, String>,
    now: i64,
) -> (r: Vec<(String, Vec<u8>)>)
    ensures
        match outcome {
            Ok(cutout) => {
                &&& r.len() == if with_mask {
                    2int
                } else {
                    1int
                }
                &&& r[0].0@ == attachment.filename_stem@ + "_no_bg.png"@
                &&& r[0].1 == cutout.image
                &&& with_mask ==> r[1].0@ == attachment.filename_stem@ + "_mask.png"@ && r[1].1
                    == cutout.mask
            },
            Err(details) => {
                &&& r.len() == 1
                &&& r[0].0@ == attachment.filename_stem@ + ".error.txt"@
                &&& r[0].1@ == vstd::utf8::encode_utf8(
                    crate::product::report_text(
                        FailureKind::Transform,
                        attachment.meta.filename@,
                        details@,
                        crate::product::stamp_text(crate::product::utc_text(now as int)),
                    ),
                )
            },
        },
{
    let mut out: Vec<(String, Vec<u8>)> = Vec::new();
    match outcome {
        Ok(cutout) => {
            out.push((cutout_name(attachment.filename_stem.as_str()), cutout.image));
            if with_mask {
                out.push((mask_name(attachment.filename_stem.as_str()), cutout.mask));
            }
        },
        Err(details) => {
            out.push(transform_failure(attachment, details.as_str(), now));
        },
    }
    out
}

/// What is reported where the icon transform returned another number of
/// icons than there are variants.
pub const INCOMPLETE_ICONS_TEXT: &'static str = "incomplete icon set";

/// The products of the icon transform on one attachment: the six icons,
/// each under the path of its variant, in the order of the variants; or
/// the report on the failure. A set of icons that is not complete counts
/// as a failure.
pub fn icon_products(
    attachment: &AttachmentMemory,
    outcome: Result<Vec<Vec<u8>>, String>,
    now: i64,
) -> (r: Vec<(String, Vec<u8>)>)
    ensures
        match outcome {
            Ok(icons) => if icons.len() == ICON_VARIANTS {
                &&& r.len() == ICON_VARIANTS
                &&& forall|k: int|
                    0 <= k < ICON_VARIANTS ==> (#[trigger] r[k]).0@ == IconVariant::at(
                        k,
                    ).path_text(attachment.filename_stem@) && r[k].1@ == icons[k]@
            } else {
                &&& r.len() == 1
                &&& r[0].0@ == attachment.filename_stem@ + ".error.txt"@
                &&& r[0].1@ == vstd::utf8::encode_utf8(
                    crate::product::report_text(
                        FailureKind::Transform,
                        attachment.meta.filename@,
                        INCOMPLETE_ICONS_TEXT@,
                        crate::product::stamp_text(crate::product::utc_text(now as int)),
                    ),
                )
            },
            Err(details) => {
                &&& r.len() == 1
                &&& r[0].0@ == attachment.filename_stem@ + ".error.txt"@
                &&& r[0].1@ == vstd::utf8::encode_utf8(
                    crate::product::report_text(
                        FailureKind::Transform,
                        attachment.meta.filename@,
                        details@,
                        crate::product::stamp_text(crate::product::utc_text(now as int)),
                    ),
                )
            },
        },
{
    let mut out: Vec<(String, Vec<u8>)> = Vec::new();
    match outcome {
        Ok(icons) => {
            if icons.len() != ICON_VARIANTS {
                out.push(transform_failure(attachment, INCOMPLETE_ICONS_TEXT, now));
                return out;
            }
            let mut k: usize = 0;
            while k < ICON_VARIANTS
                invariant
                    k <= ICON_VARIANTS,
                    icons.len() == ICON_VARIANTS,
                    out.len() == k,
                    forall|j: int|
                        0 <= j < k ==> (#[trigger] out[j]).0@ == IconVariant::at(j).path_text(
                            attachment.filename_stem@,
                        ) && out[j].1@ == icons[j]@,
                decreases ICON_VARIANTS - k,
            {
                let variant = match IconVariant::from_index(k) {
                    Some(v) => v,
                    None => IconVariant::Btn,
                };
                let path = variant.archive_path(attachment.filename_stem.as_str());
                let bytes = icons[k].clone();
                assert(bytes@ == icons[k as int]@);
                out.push((path, bytes));
                k += 1;
            }
        },
        Err(details) => {
            out.push(transform_failure(attachment, details.as_str(), now));
        },
    }
    out
}

/// What a transform made of one attachment.
#[derive(Debug)]
pub enum Transformed {
    /// The converted file, by the BLP pool.
    Converted(Vec<u8>),
    /// The image without background and its mask, by the background
    /// removal.
    Removed(Cutout),
    /// The icons, one for each variant, by the icon pool.
    Icons(Vec<Vec<u8>>),
}

/// What is reported where an attachment came back from the transform of
/// another pool.
pub const WRONG_TRANSFORM_TEXT: &'static str = "transform of another pool";

/// The report on an attachment as a product: its name and its content.
pub open spec fn report_for(
    attachment: &AttachmentMemory,
    kind: FailureKind,
    details: Seq<char>,
    now: i64,
) -> (Seq<char>, Seq<u8>) {
    (
        attachment.filename_stem@ + ".error.txt"@,
        vstd::utf8::encode_utf8(
            crate::product::report_text(
                kind,
                attachment.meta.filename@,
                details,
                crate::product::stamp_text(crate::product::utc_text(now as int)),
            ),
        ),
    )
}

/// The icons of one attachment as products, each under the path of its
/// variant.
pub open spec fn icon_entries(stem: Seq<char>, icons: Seq<Vec<u8>>) -> Seq<(Seq<char>, Seq<u8>)> {
    Seq::new(ICON_VARIANTS as nat, |k: int| (IconVariant::at(k).path_text(stem), icons[k]@))
}

/// The products of one attachment, as names and contents: the report on a
/// failed download; else the report on a failed transform; else what the
/// transform made, named by the pool of the job.
pub open spec fn products_for(
    params: JobParams,
    attachment: &AttachmentMemory,
    outcome: Result<Transformed, String>,
    now: i64,
) -> Seq<(Seq<char>, Seq<u8>)> {
    let stem = attachment.filename_stem@;
    if attachment.error is Some {
        seq![report_for(attachment, FailureKind::Download, attachment.error->0@, now)]
    } else {
        match outcome {
            Err(details) => seq![report_for(attachment, FailureKind::Transform, details@, now)],
            Ok(Transformed::Converted(bytes)) => match params {
                JobParams::Blp { target, .. } => seq![(stem + target.extension(), bytes@)],
                _ => seq![
                    report_for(attachment, FailureKind::Transform, WRONG_TRANSFORM_TEXT@, now),
                ],
            },
            Ok(Transformed::Removed(cutout)) => match params {
                JobParams::Rembg { mask, .. } => if mask {
                    seq![
                        (stem + "_no_bg.png"@, cutout.image@),
                        (stem + "_mask.png"@, cutout.mask@),
                    ]
                } else {
                    seq![(stem + "_no_bg.png"@, cutout.image@)]
                },
                _ => seq![
                    report_for(attachment, FailureKind::Transform, WRONG_TRANSFORM_TEXT@, now),
                ],
            },
            Ok(Transformed::Icons(icons)) => match params {
                JobParams::Icon => if icons.len() == ICON_VARIANTS {
                    icon_entries(stem, icons@)
                } else {
                    seq![
                        report_for(
                            attachment,
                            FailureKind::Transform,
                            INCOMPLETE_ICONS_TEXT@,
                            now,
                        ),
                    ]
                },
                _ => seq![
                    report_for(attachment, FailureKind::Transform, WRONG_TRANSFORM_TEXT@, now),
                ],
            },
        }
    }
}

/// The products of one attachment. A failure of the download or of the
/// transform gives the report on it and never stops the job.
pub fn attachment_products(
    params: &JobParams,
    attachment: &AttachmentMemory,
    outcome: Result<Transformed, String>,
    now: i64,
) -> (r: Vec<(String, Vec<u8>)>)
    ensures
        crate::archive::entries_of(r@) == products_for(*params, attachment, outcome, now),
{
    let mut out: Vec<(String, Vec<u8>)> = Vec::new();
    if let Some(report) = download_failure(attachment, now) {
        out.push(report);
        assert(crate::archive::entries_of(out@) =~= products_for(
            *params,
            attachment,
            outcome,
            now,
        ));
        return out;
    }
    match outcome {
        Err(details) => {
            out.push(transform_failure(attachment, details.as_str(), now));
        },
        Ok(Transformed::Converted(bytes)) => match params {
            JobParams::Blp { target, .. } => {
                out.push(conversion_product(attachment, *target, Ok(bytes), now));
            },
            _ => {
                out.push(transform_failure(attachment, WRONG_TRANSFORM_TEXT, now));
            },
        },
        Ok(Transformed::Removed(cutout)) => match params {
            JobParams::Rembg { mask, .. } => {
                out = removal_products(attachment, *mask, Ok(cutout), now);
            },
            _ => {
                out.push(transform_failure(attachment, WRONG_TRANSFORM_TEXT, now));
            },
        },
        Ok(Transformed::Icons(icons)) => match params {
            JobParams::Icon => {
                out = icon_products(attachment, Ok(icons), now);
            },
            _ => {
                out.push(transform_failure(attachment, WRONG_TRANSFORM_TEXT, now));
            },
        },
    }
    assert(crate::archive::entries_of(out@) =~= products_for(*params, attachment, outcome, now));
    out
}

/// The products of the attachments from position `from` on, each with
/// what the transform made of it, in the order of the attachments.
pub open spec fn products_from(
    params: JobParams,
    items: Seq<(AttachmentMemory, Result<Transformed, String>)>,
    now: i64,
    from: int,
) -> Seq<(Seq<char>, Seq<u8>)>
    decreases items.len() - from,
{
    if from < 0 || from >= items.len() {
        Seq::empty()
    } else {
        products_for(params, &items[from].0, items[from].1, now) + products_from(
            params,
            items,
            now,
            from + 1,
        )
    }
}

/// The products of a job: those of its attachments, one attachment after
/// the other, in the order in which the message listed them. A product
/// whose name came before gets its running number into its name.
pub fn assemble(
    params: &JobParams,
    items: Vec<(AttachmentMemory, Result<Transformed, String>)>,
    now: i64,
) -> (r: Vec<(String, Vec<u8>)>)
    ensures
        crate::archive::entries_of(r@) == crate::product::recounted_entries(
            products_from(*params, items@, now, 0),
        ),
{
    let ghost all = items@;
    let mut rest = items;
    let mut out: Vec<(String, Vec<u8>)> = Vec::new();
    let ghost mut done: int = 0;
    assert(crate::archive::entries_of(out@) =~= Seq::<(Seq<char>, Seq<u8>)>::empty());
    assert(rest@ =~= all.skip(0));
    while rest.len() > 0
        invariant
            0 <= done <= all.len(),
            rest@ == all.skip(done),
            crate::archive::entries_of(out@) + products_from(*params, all, now, done)
                == products_from(*params, all, now, 0),
        decreases rest.len(),
    {
        let ghost before = crate::archive::entries_of(out@);
        assert(rest@[0] == all[done]);
        let (attachment, outcome) = rest.remove(0);
        assert(rest@ =~= all.skip(done + 1));
        let mut made = attachment_products(params, &attachment, outcome, now);
        let ghost made_view = crate::archive::entries_of(made@);
        out.append(&mut made);
        proof {
            assert(crate::archive::entries_of(out@) =~= before + made_view);
            let tail = products_from(*params, all, now, done + 1);
            assert(products_from(*params, all, now, done) == made_view + tail);
            assert((before + made_view) + tail =~= before + (made_view + tail));
            done = done + 1;
        }
    }
    assert(crate::archive::entries_of(out@) + Seq::<(Seq<char>, Seq<u8>)>::empty()
        =~= crate::archive::entries_of(out@));
    crate::product::rename_duplicates(out)
}

/// What goes out with the final message of a job.
#[derive(Debug)]
pub struct Delivery {
    /// The text of the message.
    pub content: String,
    /// The files of the message: the products, or the one archive; for
    /// the icon pool the preview and the archive.
    pub files: Vec<(String, Vec<u8>)>,
}

/// The products of a job with the preview of the icon pool behind them,
/// under its name; other pools have no preview.
pub open spec fn with_preview(
    params: JobParams,
    products: Seq<(Seq<char>, Seq<u8>)>,
    preview: Option<Seq<u8>>,
) -> Seq<(Seq<char>, Seq<u8>)> {
    match preview {
        Some(image) => if params == JobParams::Icon {
            products.push((crate::product::ICON_COLLAGE_NAME@, image))
        } else {
            products
        },
        None => products,
    }
}

/// The files of the final message of a job. A job that does not pack
/// sends its products one by one. A job that packs sends one archive of
/// all products; the icon pool sends its preview first, on its own, and
/// then the archive, which holds the icons and the preview.
pub open spec fn delivered_files(
    params: JobParams,
    products: Seq<(Seq<char>, Seq<u8>)>,
    preview: Option<Seq<u8>>,
) -> Seq<(Seq<char>, Seq<u8>)> {
    let all = with_preview(params, products, preview);
    if !params.packs() {
        all
    } else {
        let archive = (params.archive_text(), crate::archive::stored_archive(all));
        match preview {
            Some(image) => if params == JobParams::Icon {
                seq![(crate::product::ICON_COLLAGE_NAME@, image), archive]
            } else {
                seq![archive]
            },
            None => seq![archive],
        }
    }
}

/// A copy of the bytes.
fn copy_bytes(bytes: &Vec<u8>) -> (r: Vec<u8>)
    ensures
        r@ == bytes@,
{
    let mut r: Vec<u8> = Vec::new();
    let mut i: usize = 0;
    while i < bytes.len()
        invariant
            i <= bytes.len(),
            r@ == bytes@.take(i as int),
        decreases bytes.len() - i,
    {
        r.push(bytes[i]);
        i += 1;
        assert(r@ =~= bytes@.take(i as int));
    }
    assert(bytes@.take(bytes.len() as int) =~= bytes@);
    r
}

/// Puts the final message of a job together: its files, and the text that
/// says how many products there are, of what kind, whether they are
/// packed, and how long the job took. `preview` is the preview of the icon
/// pool.
///
/// A job that does not pack is always delivered; one that packs is
/// delivered exactly if its products, with the preview, are archivable.
pub fn deliver(
    params: &JobParams,
    products: Vec<(String, Vec<u8>)>,
    preview: Option<Vec<u8>>,
    created: i64,
    now: i64,
) -> (r: Result<Delivery, ArchiveError>)
    ensures
        r is Ok <==> !params.packs() || crate::archive::archivable(
            with_preview(*params, crate::archive::entries_of(products@), preview_view(preview)),
        ),
        r matches Ok(d) ==> {
            &&& d.content@ == crate::product::completed_text(
                with_preview(
                    *params,
                    crate::archive::entries_of(products@),
                    preview_view(preview),
                ).len(),
                params.description(),
                params.packs(),
                crate::product::elapsed_millis_spec(created, now),
            )
            &&& crate::archive::entries_of(d.files@) == delivered_files(
                *params,
                crate::archive::entries_of(products@),
                preview_view(preview),
            )
        },
{
    let ghost given = crate::archive::entries_of(products@);
    let mut all = products;
    let shown: Option<Vec<u8>> = match (params, preview) {
        (JobParams::Icon, Some(image)) => {
            all.push((String::from_str(crate::product::ICON_COLLAGE_NAME), copy_bytes(&image)));
            Some(image)
        },
        _ => None,
    };
    assert(crate::archive::entries_of(all@) =~= with_preview(*params, given, preview_view(preview)));
    let ghost packed = crate::archive::entries_of(all@);
    let count = all.len();
    let zipped = params.zipped();
    let description = params.describe();
    let millis = crate::product::elapsed_millis(created, now);
    let content = completion_text(count, description.as_str(), zipped, millis);
    match package(all, zipped, params.archive_name()) {
        Ok(packed_files) => {
            let files = match shown {
                Some(image) => {
                    let mut out: Vec<(String, Vec<u8>)> = Vec::new();
                    out.push((String::from_str(crate::product::ICON_COLLAGE_NAME), image));
                    let mut tail = packed_files;
                    out.append(&mut tail);
                    out
                },
                None => packed_files,
            };
            assert(crate::archive::entries_of(files@) =~= delivered_files(
                *params,
                given,
                preview_view(preview),
            ));
            Ok(Delivery { content, files })
        },
        Err(e) => Err(e),
    }
}

/// The view of the preview.
pub open spec fn preview_view(preview: Option<Vec<u8>>) -> Option<Seq<u8>> {
    match preview {
        Some(image) => Some(image@),
        None => None,
    }
}

/// How a job is settled once its final message was sent or not.
#[derive(Debug)]
pub enum Settlement {
    /// Mark the job completed.
    Completed,
    /// Mark the job failed with this error, which counts a retry.
    Failed { error: String },
}

/// Settles a job by the outcome of sending its final message: a job whose
/// message went out is completed, whatever happened to single
/// attachments; a job whose message could not be sent has failed.
pub fn settle(sent: Result<(), String>) -> (r: Settlement)
    ensures
        match sent {
            Ok(()) => r is Completed,
            Err(e) => r matches Settlement::Failed { error } && error == e,
        },
{
    match sent {
        Ok(()) => Settlement::Completed,
        Err(error) => Settlement::Failed { error },
    }
}

} // verus!
