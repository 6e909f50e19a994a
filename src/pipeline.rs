use vstd::prelude::*;

use vstd::string::StringExecFns;

verus! {

/// The sandbox image that renders documents to pixels.
pub const IMAGE_NAME: &'static str = "ghcr.io/freedomofpress/dangerzone/v1";

/// The container options that isolate the renderer: no logging, no new
/// privileges, every capability dropped but chroot, no network, an
/// unprivileged user.
pub open spec fn security_args() -> Seq<Seq<char>> {
    seq![
        "--log-driver"@,
        "none"@,
        "--security-opt"@,
        "no-new-privileges"@,
        "--cap-drop"@,
        "all"@,
        "--cap-add"@,
        "SYS_CHROOT"@,
        "--security-opt"@,
        "label=type:container_engine_t"@,
        "--network=none"@,
        "-u"@,
        "dangerzone"@,
    ]
}

/// The arguments of the container runtime that run the renderer from `image`
/// on standard input and output.
pub open spec fn renderer_args_of(image: Seq<char>) -> Seq<Seq<char>> {
    seq!["run"@] + security_args() + seq![
        "--rm"@,
        "-i"@,
        image,
        "/usr/bin/python3"@,
        "-m"@,
        "dangerzone.conversion.doc_to_pixels"@,
    ]
}

fn push_arg(args: &mut Vec<String>, s: &str)
    ensures
        final(args).deep_view() == old(args).deep_view().push(s@),
{
    let a = s.to_string();
    args.push(a);
    assert(args.deep_view() =~= old(args).deep_view().push(s@));
}

pub fn get_security_args() -> (r: Vec<String>)
    ensures
        r.deep_view() == security_args(),
{
    let mut args: Vec<String> = Vec::new();
    push_arg(&mut args, "--log-driver");
    push_arg(&mut args, "none");
    push_arg(&mut args, "--security-opt");
    push_arg(&mut args, "no-new-privileges");
    push_arg(&mut args, "--cap-drop");
    push_arg(&mut args, "all");
    push_arg(&mut args, "--cap-add");
    push_arg(&mut args, "SYS_CHROOT");
    push_arg(&mut args, "--security-opt");
    push_arg(&mut args, "label=type:container_engine_t");
    push_arg(&mut args, "--network=none");
    push_arg(&mut args, "-u");
    push_arg(&mut args, "dangerzone");
    assert(args.deep_view() =~= security_args());
    args
}

/// The arguments of the container runtime that run the renderer from `image`.
pub fn renderer_args(image: &str) -> (r: Vec<String>)
    ensures
        r.deep_view() == renderer_args_of(image@),
{
    let mut args: Vec<String> = Vec::new();
    push_arg(&mut args, "run");
    let security = get_security_args();
    let mut i: usize = 0;
    while i < security.len()
        invariant
            security.deep_view() == security_args(),
            i <= security@.len(),
            args.deep_view() == seq!["run"@] + security_args().take(i as int),
        decreases security@.len() - i,
    {
        let a = security[i].clone();
        assert(a@ == security.deep_view()[i as int]);
        let ghost before = args.deep_view();
        args.push(a);
        assert(args.deep_view() =~= before.push(a@));
        assert(args.deep_view() =~= seq!["run"@] + security_args().take(i + 1));
        i = i + 1;
    }
    assert(security_args().take(security@.len() as int) =~= security_args());
    push_arg(&mut args, "--rm");
    push_arg(&mut args, "-i");
    push_arg(&mut args, image);
    push_arg(&mut args, "/usr/bin/python3");
    push_arg(&mut args, "-m");
    push_arg(&mut args, "dangerzone.conversion.doc_to_pixels");
    assert(args.deep_view() =~= renderer_args_of(image@));
    args
}

/// Where the assembled PDF is first written: the output path itself, or,
/// where OCR follows, a temporary file beside it.
pub open spec fn staging_path_of(output_path: Seq<char>, apply_ocr: bool) -> Seq<char> {
    if apply_ocr {
        output_path + ".temp.pdf"@
    } else {
        output_path
    }
}

pub fn staging_path(output_path: &str, apply_ocr: bool) -> (r: String)
    ensures
        r@ == staging_path_of(output_path@, apply_ocr),
{
    let path = output_path.to_string();
    if apply_ocr {
        path.concat(".temp.pdf")
    } else {
        path
    }
}

/// One way of adding a text layer to a PDF.
#[derive(Clone, Copy, Debug, PartialEq, Eq, Structural)]
pub enum OcrTier {
    /// The OCR engine of the platform, through a helper script.
    PlatformHelper,
    /// The general `ocrmypdf` command.
    OcrMyPdf,
}

/// The tiers to try, in order: the platform's engine where there is one,
/// then the general command.
pub open spec fn ocr_tiers_of(platform_engine: bool) -> Seq<OcrTier> {
    if platform_engine {
        seq![OcrTier::PlatformHelper, OcrTier::OcrMyPdf]
    } else {
        seq![OcrTier::OcrMyPdf]
    }
}

pub fn ocr_tiers(platform_engine: bool) -> (r: Vec<OcrTier>)
    ensures
        r@ == ocr_tiers_of(platform_engine),
{
    let mut tiers: Vec<OcrTier> = Vec::new();
    if platform_engine {
        tiers.push(OcrTier::PlatformHelper);
    }
    tiers.push(OcrTier::OcrMyPdf);
    assert(tiers@ =~= ocr_tiers_of(platform_engine));
    tiers
}

/// What the OCR post-pass does next.
#[derive(Clone, Copy, Debug, PartialEq, Eq, Structural)]
pub enum OcrStep {
    /// Run the tier at this index of the list.
    Attempt(usize),
    /// Deliver the PDF without a text layer: copy it to the output unchanged.
    CopyInput,
    /// A tier produced the output; stop.
    Done,
}

pub open spec fn next_ocr_step_of(tier_count: nat, attempted: nat, last_succeeded: bool) -> OcrStep {
    if attempted > 0 && last_succeeded {
        OcrStep::Done
    } else if attempted < tier_count {
        OcrStep::Attempt(attempted as usize)
    } else {
        OcrStep::CopyInput
    }
}

/// The first tier that succeeds wins; a failing tier hands over to the next;
/// where every tier failed, the PDF is copied unchanged.
pub fn next_ocr_step(tier_count: usize, attempted: usize, last_succeeded: bool) -> (r: OcrStep)
    requires
        attempted <= tier_count,
    ensures
        r == next_ocr_step_of(tier_count as nat, attempted as nat, last_succeeded),
{
    if attempted > 0 && last_succeeded {
        OcrStep::Done
    } else if attempted < tier_count {
        OcrStep::Attempt(attempted)
    } else {
        OcrStep::CopyInput
    }
}

/// The arguments of `ocrmypdf` that redo recognition on every page.
pub open spec fn ocrmypdf_args_of(input: Seq<char>, output: Seq<char>) -> Seq<Seq<char>> {
    seq!["--redo-ocr"@, input, output]
}

pub fn ocrmypdf_args(input: &str, output: &str) -> (r: Vec<String>)
    ensures
        r.deep_view() == ocrmypdf_args_of(input@, output@),
{
    let mut args: Vec<String> = Vec::new();
    push_arg(&mut args, "--redo-ocr");
    push_arg(&mut args, input);
    push_arg(&mut args, output);
    assert(args.deep_view() =~= ocrmypdf_args_of(input@, output@));
    args
}

} // verus!
