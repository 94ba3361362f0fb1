//! The steps of a color extraction, and the decisions of the extraction that
//! do not look at pixels.

pub mod config;

use vstd::prelude::*;

verus! {

/// A step of the extraction, reported to a progress callback.
#[derive(Debug, Clone, Copy, PartialEq, Eq, Structural)]
pub enum ExtractStep {
    CheckingCache,
    FinishedWithCache,
    OpeningImage,
    ResizingImage,
    ExtractingColors,
    Clustering,
    Finished,
}

/// The text shown for a step.
pub open spec fn step_message(step: ExtractStep) -> Seq<char> {
    match step {
        ExtractStep::CheckingCache => "Checking cache..."@,
        ExtractStep::FinishedWithCache => "Color loaded from cache!"@,
        ExtractStep::OpeningImage => "Opening image..."@,
        ExtractStep::ResizingImage => "Resizing image..."@,
        ExtractStep::ExtractingColors => "Extracting perception-aware colors..."@,
        ExtractStep::Clustering => "Running K-Means clustering..."@,
        ExtractStep::Finished => "Color extracted!"@,
    }
}

impl ExtractStep {
    /// Checks if the current step is the final step.
    pub fn is_final(&self) -> (r: bool)
        ensures
            r == (*self == ExtractStep::Finished || *self == ExtractStep::FinishedWithCache),
    {
        match self {
            ExtractStep::Finished => true,
            ExtractStep::FinishedWithCache => true,
            _ => false,
        }
    }

    /// The text shown for the step (what the step displays as).
    pub fn message(&self) -> (r: &'static str)
        ensures
            r@ == step_message(*self),
    {
        match self {
            ExtractStep::CheckingCache => "Checking cache...",
            ExtractStep::FinishedWithCache => "Color loaded from cache!",
            ExtractStep::OpeningImage => "Opening image...",
            ExtractStep::ResizingImage => "Resizing image...",
            ExtractStep::ExtractingColors => "Extracting perception-aware colors...",
            ExtractStep::Clustering => "Running K-Means clustering...",
            ExtractStep::Finished => "Color extracted!",
        }
    }
}

/// The size an image is brought to before extraction, and whether that
/// takes a resize: a configured width or height replaces the image's own,
/// and the image is resized only when the size changes.
pub fn resize_target(res_w: Option<u32>, res_h: Option<u32>, width: u32, height: u32) -> (r: (
    u32,
    u32,
    bool,
))
    ensures
        r.0 == (match res_w {
            Some(w) => w,
            None => width,
        }),
        r.1 == (match res_h {
            Some(h) => h,
            None => height,
        }),
        r.2 == !(r.0 == width && r.1 == height),
{
    let tw = match res_w {
        Some(w) => w,
        None => width,
    };
    let th = match res_h {
        Some(h) => h,
        None => height,
    };
    (tw, th, !(tw == width && th == height))
}

} // verus!
