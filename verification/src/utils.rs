//! The extension-to-label mapping used for fenced code blocks.

use vstd::prelude::*;
use crate::text::str_eq;

verus! {

/// The label belonging to a file extension: a known language token for the
/// mapped extensions, the raw extension for every other.
pub open spec fn spec_label_of(ext: Seq<char>) -> Seq<char> {
    if ext == "rs"@ {
        "rust"@
    } else if ext == "js"@ {
        "javascript"@
    } else if ext == "ts"@ {
        "typescript"@
    } else if ext == "py"@ {
        "python"@
    } else if ext == "html"@ {
        "html"@
    } else if ext == "css"@ {
        "css"@
    } else if ext == "java"@ {
        "java"@
    } else if ext == "c"@ {
        "c"@
    } else if ext == "cpp"@ {
        "cpp"@
    } else if ext == "cs"@ {
        "csharp"@
    } else if ext == "sh"@ {
        "bash"@
    } else if ext == "json"@ {
        "json"@
    } else {
        ext
    }
}

/// Maps a file extension to the label of its fenced code block; unmapped
/// extensions pass through unchanged.
pub fn get_code_block_label<'a>(extension: &'a str) -> (r: &'a str)
    ensures
        r@ == spec_label_of(extension@),
{
    if str_eq(extension, "rs") {
        "rust"
    } else if str_eq(extension, "js") {
        "javascript"
    } else if str_eq(extension, "ts") {
        "typescript"
    } else if str_eq(extension, "py") {
        "python"
    } else if str_eq(extension, "html") {
        "html"
    } else if str_eq(extension, "css") {
        "css"
    } else if str_eq(extension, "java") {
        "java"
    } else if str_eq(extension, "c") {
        "c"
    } else if str_eq(extension, "cpp") {
        "cpp"
    } else if str_eq(extension, "cs") {
        "csharp"
    } else if str_eq(extension, "sh") {
        "bash"
    } else if str_eq(extension, "json") {
        "json"
    } else {
        extension
    }
}

} // verus!
