//! Rendering one emitted file as a labelled fenced block, and the document
//! heading.

use vstd::prelude::*;
use crate::utils::{get_code_block_label, spec_label_of};

verus! {

/// Index of the last `.` in a name, or `-1` when none occurs.
pub open spec fn spec_last_dot(name: Seq<char>) -> int
    decreases name.len(),
{
    if name.len() == 0 {
        -1
    } else if name.last() == '.' {
        name.len() - 1
    } else {
        spec_last_dot(name.drop_last())
    }
}

/// The extension of a filename: what follows the last dot — unless no dot
/// occurs, or the only dot opens the name, as in a hidden file.
pub open spec fn spec_ext_of(name: Seq<char>) -> Option<Seq<char>> {
    if spec_last_dot(name) >= 1 {
        Some(name.subrange(spec_last_dot(name) + 1, name.len() as int))
    } else {
        None
    }
}

proof fn lemma_last_dot_at(name: Seq<char>, i: int)
    requires
        0 <= i < name.len(),
        name[i] == '.',
        forall|j: int| i < j < name.len() ==> name[j] != '.',
    ensures
        spec_last_dot(name) == i,
    decreases name.len(),
{
    if i < name.len() - 1 {
        lemma_last_dot_at(name.drop_last(), i);
    }
}

proof fn lemma_no_dot(name: Seq<char>)
    requires
        forall|j: int| 0 <= j < name.len() ==> name[j] != '.',
    ensures
        spec_last_dot(name) == -1,
    decreases name.len(),
{
    if name.len() > 0 {
        lemma_no_dot(name.drop_last());
    }
}

/// Finds the extension of a bare filename, as `spec_ext_of` defines it.
pub fn extension_of(name: &str) -> (r: Option<String>)
    ensures
        match r {
            Some(e) => spec_ext_of(name@) == Some(e@),
            None => spec_ext_of(name@) is None,
        },
{
    let n = name.unicode_len();
    let mut k: usize = n;
    let mut found = false;
    while !found && k > 0
        invariant
            n == name@.len(),
            k <= n,
            forall|j: int| k <= j < n ==> name@[j] != '.',
            found ==> k >= 1 && name@[k - 1] == '.',
        decreases (if found { 0int } else { 1int }) + k as int,
    {
        if name.get_char(k - 1) == '.' {
            found = true;
        } else {
            k -= 1;
        }
    }
    if found {
        proof {
            lemma_last_dot_at(name@, k - 1 as int);
        }
        if k >= 2 {
            Some(name.substring_char(k, n).to_owned())
        } else {
            None
        }
    } else {
        proof {
            lemma_no_dot(name@);
        }
        None
    }
}

/// The label of a block: the extension's token, or a plaintext label for a
/// file without extension.
pub open spec fn spec_label_for(ext: Option<Seq<char>>) -> Seq<char> {
    match ext {
        Some(e) => spec_label_of(e),
        None => "plaintext"@,
    }
}

/// The body of a block: the file's text, or a fixed sentinel where the file
/// did not decode as text.
pub open spec fn spec_body_for(content: Option<Seq<char>>) -> Seq<char> {
    match content {
        Some(c) => c,
        None => "<file content not valid UTF-8>"@,
    }
}

/// The view of an optional borrowed content string.
pub open spec fn spec_content_view(content: Option<&str>) -> Option<Seq<char>> {
    match content {
        Some(c) => Some(c@),
        None => None,
    }
}

/// One emitted file as it stands in the output document: a header line with
/// the relative path, a fenced block labelled from the extension, the body,
/// a closing fence and a trailing blank line.
pub open spec fn spec_file_block(rel: Seq<char>, name: Seq<char>, content: Option<Seq<char>>) -> Seq<
    char,
> {
    "--- "@ + rel + " ---\n\n```"@ + spec_label_for(spec_ext_of(name)) + "\n"@ + spec_body_for(
        content,
    ) + "\n```\n\n"@
}

/// Renders one file's labelled block from its relative path, its bare
/// filename and its decoded content, `None` standing for undecodable bytes.
pub fn concatenate_file(relative_path: &str, filename: &str, content: Option<&str>) -> (r: String)
    ensures
        r@ == spec_file_block(relative_path@, filename@, spec_content_view(content)),
{
    let mut out: String = "--- ".to_owned();
    out.append(relative_path);
    out.append(" ---\n\n```");
    let ext = extension_of(filename);
    match ext {
        Some(e) => out.append(get_code_block_label(e.as_str())),
        None => out.append("plaintext"),
    };
    out.append("\n");
    match content {
        Some(c) => out.append(c),
        None => out.append("<file content not valid UTF-8>"),
    };
    out.append("\n```\n\n");
    proof {
        assert(out@ =~= spec_file_block(relative_path@, filename@, spec_content_view(content)));
    }
    out
}

/// The document's opening line: a heading naming the project.
pub fn render_heading(project_name: &str) -> (r: String)
    ensures
        r@ == "# "@ + project_name@ + " codebase\n\n"@,
{
    let mut out: String = "# ".to_owned();
    out.append(project_name);
    out.append(" codebase\n\n");
    proof {
        assert(out@ =~= "# "@ + project_name@ + " codebase\n\n"@);
    }
    out
}

} // verus!
