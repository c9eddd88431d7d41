//! What to say of the decoders that the general decoder was given.

use vstd::prelude::*;
use vstd::string::*;

use crate::jpeg_xl::bool_text;

verus! {

/// One flag for each format of the HEIF family.
#[derive(Clone, Copy, Debug, PartialEq, Eq, Structural)]
pub struct HeifHooks {
    pub heic: bool,
    pub heif: bool,
    pub avif: bool,
}

impl HeifHooks {
    /// `(heic:<flag>, heif:<flag>, avif:<flag>)`
    pub open spec fn text(self) -> Seq<char> {
        "(heic:"@ + bool_text(self.heic) + ", heif:"@ + bool_text(self.heif) + ", avif:"@
            + bool_text(self.avif) + ")"@
    }

    pub open spec fn all(self) -> bool {
        self.heic && self.heif && self.avif
    }

    fn write(&self) -> (text: String)
        ensures
            text@ == self.text(),
    {
        let mut text = "(heic:".to_owned();
        text.append(write_bool(self.heic));
        text.append(", heif:");
        text.append(write_bool(self.heif));
        text.append(", avif:");
        text.append(write_bool(self.avif));
        text.append(")");
        text
    }
}

/// `true` or `false`.
pub fn write_bool(b: bool) -> (text: &'static str)
    ensures
        text@ == bool_text(b),
{
    if b {
        "true"
    } else {
        "false"
    }
}

/// What to say of the decoders of the HEIF family: nothing, if all of them were
/// registered now and one shows HEIF images. `registered` are those that were
/// registered now, and `active` those that are there.
pub open spec fn heif_complaint(registered: HeifHooks, active: HeifHooks) -> Option<Seq<char>> {
    if !active.heic && !active.heif {
        Some(
            "[ml][decode] failed to activate HEIF/HEIC decoder hooks; registration_result="@ + registered.text()
                + ", active_hooks="@ + active.text(),
        )
    } else if !registered.all() {
        Some(
            "[ml][decode] ente_heic decoder hooks only partially registered (usually because another initializer registered first); registration_result="@
                + registered.text() + ", active_hooks="@ + active.text(),
        )
    } else {
        None
    }
}

/// What to say of the decoders of the HEIF family.
pub fn complain_of_heif_hooks(registered: HeifHooks, active: HeifHooks) -> (r: Option<String>)
    ensures
        match r {
            Some(text) => heif_complaint(registered, active) == Some(text@),
            None => heif_complaint(registered, active) is None,
        },
{
    let mut message = if !active.heic && !active.heif {
        "[ml][decode] failed to activate HEIF/HEIC decoder hooks; registration_result=".to_owned()
    } else if !(registered.heic && registered.heif && registered.avif) {
        "[ml][decode] ente_heic decoder hooks only partially registered (usually because another initializer registered first); registration_result=".to_owned()
    } else {
        return None;
    };
    message.append(registered.write().as_str());
    message.append(", active_hooks=");
    message.append(active.write().as_str());
    Some(message)
}

/// What to say of the decoder for JPEG XL: nothing, if it is there.
pub open spec fn jpeg_xl_complaint(registered_now: bool, active: bool) -> Option<Seq<char>> {
    if active {
        None
    } else {
        Some(
            "[ml][decode] failed to activate JPEG XL decoder hook; registered_now="@ + bool_text(
                registered_now,
            ) + ", active_hook="@ + bool_text(active),
        )
    }
}

/// What to say of the decoder for JPEG XL.
pub fn complain_of_jpeg_xl_hook(registered_now: bool, active: bool) -> (r: Option<String>)
    ensures
        match r {
            Some(text) => jpeg_xl_complaint(registered_now, active) == Some(text@),
            None => jpeg_xl_complaint(registered_now, active) is None,
        },
{
    if active {
        return None;
    }
    let mut message =
        "[ml][decode] failed to activate JPEG XL decoder hook; registered_now=".to_owned();
    message.append(write_bool(registered_now));
    message.append(", active_hook=");
    message.append(write_bool(active));
    Some(message)
}

/// Nothing is said of the HEIF decoders exactly where all three were registered
/// now and one that shows HEIF images is there.
pub proof fn law_heif_hooks_are_silent_if_sound(registered: HeifHooks, active: HeifHooks)
    ensures
        heif_complaint(registered, active) is None <==> {
            &&& active.heic || active.heif
            &&& registered.heic && registered.heif && registered.avif
        },
        jpeg_xl_complaint(registered.heic, active.heic) is None <==> active.heic,
{
}

} // verus!
