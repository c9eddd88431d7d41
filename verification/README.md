# photo_intake

Decodes photos, camera RAWs among them, into upright sRGB images, and turns a
search in natural language into the call of a search tool. The library in `src/`
is verified with Verus; `app/` holds the files, the RAW decoder and the language
model around it.

## Decoding

An image is looked at before it is decoded. What looks like a camera RAW goes to
the RAW decoder, and everything else to the general decoder. A file whose name
and first bytes both say that it is a RAW is never shown by the general decoder,
which could show a mere thumbnail; in every other case one decoder stands in for
the other.

A RAW of up to 36 megapixels is developed, a larger one is shown through its
largest embedded JPEG. Before a DNG is decoded, the buffers that its tags and its
compressed payloads ask for are added up, and a payload that hides a larger image
than its block is refused.

## Searching

FunctionGemma is given a developer's prompt, the declarations of tools and the
user's query. Whatever it writes, the answer is a call of `search_photos_v1` with
an object of arguments, or an error that says what is wrong.

## What is trusted

Calls into other crates stand behind small functions with a contract that Verus
does not check. Each has a comment that names the function that it calls and says
what is claimed of it. The decoders of RAWs, of images in general, of TIFFs and of
JPEG XL headers may panic on a damaged file. They are called from `app/`, which
hands them to the library as functions; what the library does with each answer is
proved. A panic while a RAW is decoded is caught there and told as an error.
