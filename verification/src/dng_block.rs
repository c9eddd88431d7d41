//! Names the block of a DNG that a message is about.

use vstd::prelude::*;
use vstd::string::*;

use crate::error::{is_decode_error, ImageError, ImageResult};
use crate::text::{contains, decimal, matches_at, usize_text};

verus! {

/// Which block of which image a payload is.
#[derive(Clone, Copy)]
pub struct DngBlockContext<'a> {
    pub kind: &'static str,
    pub index: usize,
    pub source_name: &'a str,
}

impl<'a> DngBlockContext<'a> {
    pub fn new(kind: &'static str, index: usize, source_name: &'a str) -> (context: Self)
        ensures
            context.kind == kind,
            context.index == index,
            context.source_name == source_name,
    {
        DngBlockContext { kind, index, source_name }
    }

    /// `DNG <kind> <index> for '<name of the image>'`
    pub open spec fn text(self) -> Seq<char> {
        "DNG "@ + self.kind@ + " "@ + decimal(self.index as nat) + " for '"@ + self.source_name@
            + "'"@
    }

    /// Writes which block this is.
    pub fn write(&self) -> (text: String)
        ensures
            text@ == self.text(),
    {
        let mut text = "DNG ".to_owned();
        text.append(self.kind);
        text.append(" ");
        text.append(usize_text(self.index).as_str());
        text.append(" for '");
        text.append(self.source_name);
        text.append("'");
        text
    }
}

/// The decode error `<head><context><tail>`.
pub fn block_error<T>(head: &str, context: DngBlockContext<'_>, tail: &str) -> (r: ImageResult<T>)
    ensures
        is_decode_error(r, head@ + context.text() + tail@),
{
    let mut message = head.to_owned();
    message.append(context.write().as_str());
    message.append(tail);
    Err(ImageError::Decode(message))
}

/// A message about a block says which it is: its kind, its number and its image.
pub proof fn law_messages_tell_the_block(context: DngBlockContext<'_>)
    ensures
        contains(context.text(), context.kind@),
        contains(context.text(), decimal(context.index as nat)),
        contains(context.text(), context.source_name@),
{
    let text = context.text();
    let number = decimal(context.index as nat);
    let first = "DNG "@.len() as int;
    let second = ("DNG "@ + context.kind@ + " "@).len() as int;
    let third = ("DNG "@ + context.kind@ + " "@ + number + " for '"@).len() as int;
    assert(text.subrange(first, first + context.kind@.len()) =~= context.kind@);
    assert(matches_at(text, context.kind@, first));
    assert(text.subrange(second, second + number.len()) =~= number);
    assert(matches_at(text, number, second));
    assert(text.subrange(third, third + context.source_name@.len()) =~= context.source_name@);
    assert(matches_at(text, context.source_name@, third));
}

} // verus!
