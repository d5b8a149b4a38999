//! The tag extractor: what a window title, an executable path, a working
//! directory and a command line say about the software in focus.

use vstd::prelude::*;
use vstd::string::{StrSliceExecFns, StringExecFns};
use crate::embedded::{first_candidate, json_tags, title_json_tags};
use crate::error::ExtractError;
use crate::marker::{first_block, marker_tags, title_marker_tags};
use crate::tags::{tags_view, TagValue};
use crate::text::append_text;

verus! {

/// `relative` resolved against the directory `cwd`: the two joined by one `/`,
/// which is left out where `cwd` is empty or ends in one.
pub open spec fn joined_path(cwd: Seq<char>, relative: Seq<char>) -> Seq<char> {
    if cwd.len() == 0 || cwd.last() == '/' {
        cwd + relative
    } else {
        cwd + seq!['/'] + relative
    }
}

/// The file that a command line opens. Only a command line of a program and
/// one argument names a file: the argument itself where it starts with `/`,
/// the argument resolved against `cwd` where it does not start with `-`.
pub open spec fn opened_file(cwd: Seq<char>, cmdline: Seq<String>) -> Result<
    Seq<char>,
    ExtractError,
> {
    if cmdline.len() != 2 {
        Err(ExtractError::UnsupportedCommandLineShape)
    } else if cmdline[1]@.len() > 0 && cmdline[1]@[0] == '/' {
        Ok(cmdline[1]@)
    } else if cmdline[1]@.len() > 0 && cmdline[1]@[0] == '-' {
        Err(ExtractError::UnsupportedCommandLineShape)
    } else {
        Ok(joined_path(cwd, cmdline[1]@))
    }
}

/// The tag for the opened file, where both inputs are given and name one.
pub open spec fn opened_file_tags(cwd: Option<Seq<char>>, cmdline: Option<Seq<String>>) -> Seq<
    (Seq<char>, Seq<char>),
> {
    match (cwd, cmdline) {
        (Some(cwd), Some(cmdline)) => match opened_file(cwd, cmdline) {
            Ok(path) => seq![("software-opened-file"@, path)],
            Err(_) => Seq::empty(),
        },
        _ => Seq::empty(),
    }
}

/// The tags that do not depend on what the title holds: the title itself,
/// then the executable path, the window class and the opened file, each where
/// it is given.
pub open spec fn base_tags(
    title: Seq<char>,
    class: Option<(Seq<char>, Seq<char>)>,
    executable_path: Option<Seq<char>>,
    cwd: Option<Seq<char>>,
    cmdline: Option<Seq<String>>,
) -> Seq<(Seq<char>, Seq<char>)> {
    seq![("software-window-title"@, title)] + (match executable_path {
        Some(path) => seq![("software-executable-path"@, path)],
        None => Seq::empty(),
    }) + (match class {
        Some((instance, class)) => seq![("software-window-class"@, instance + "."@ + class)],
        None => Seq::empty(),
    }) + opened_file_tags(cwd, cmdline)
}

/// The tags of the marker block of a title; none where the block is malformed.
pub open spec fn marker_block_tags(title: Seq<char>) -> Seq<(Seq<char>, Seq<char>)> {
    match marker_tags(title) {
        Ok(tags) => tags,
        Err(_) => Seq::empty(),
    }
}

/// All tags of a sample: the base tags, then those of the marker block, then
/// those of the embedded object.
pub open spec fn software_tags(
    title: Seq<char>,
    class: Option<(Seq<char>, Seq<char>)>,
    executable_path: Option<Seq<char>>,
    cwd: Option<Seq<char>>,
    cmdline: Option<Seq<String>>,
) -> Seq<(Seq<char>, Seq<char>)> {
    base_tags(title, class, executable_path, cwd, cmdline) + marker_block_tags(title) + json_tags(
        title,
    )
}

/// The view of a window class.
pub open spec fn class_view(class: Option<(String, String)>) -> Option<(Seq<char>, Seq<char>)> {
    match class {
        Some((instance, class)) => Some((instance@, class@)),
        None => None,
    }
}

/// The view of an optional text.
pub open spec fn text_view(text: Option<&str>) -> Option<Seq<char>> {
    match text {
        Some(text) => Some(text@),
        None => None,
    }
}

/// The view of an optional command line.
pub open spec fn cmdline_view(cmdline: Option<&[String]>) -> Option<Seq<String>> {
    match cmdline {
        Some(cmdline) => Some(cmdline@),
        None => None,
    }
}

/// The file that the command line `cmdline`, run in `cwd`, opens.
pub fn match_cmdline_to_filepath(cwd: &str, cmdline: &[String]) -> (path: Result<
    String,
    ExtractError,
>)
    ensures
        match path {
            Ok(path) => opened_file(cwd@, cmdline@) == Ok::<_, ExtractError>(path@),
            Err(e) => opened_file(cwd@, cmdline@) == Err::<Seq<char>, _>(e),
        },
{
    if cmdline.len() != 2 {
        return Err(ExtractError::UnsupportedCommandLineShape);
    }
    let argument = cmdline[1].as_str();
    let first = if argument.unicode_len() > 0 {
        Some(argument.get_char(0))
    } else {
        None
    };
    if first == Some('/') {
        return Ok(String::from_str(argument));
    }
    if first == Some('-') {
        return Err(ExtractError::UnsupportedCommandLineShape);
    }
    let cwd_len = cwd.unicode_len();
    if cwd_len == 0 || cwd.get_char(cwd_len - 1) == '/' {
        Ok(append_text(cwd, argument))
    } else {
        proof {
            reveal_strlit("/");
            assert("/"@ =~= seq!['/']);
        }
        let mut path = append_text(cwd, "/");
        path.append(argument);
        Ok(path)
    }
}

/// Structured information about the software in focus, from its window title
/// and what else is known of it.
pub fn match_software(
    window_title: &str,
    window_class: &Option<(String, String)>,
    executable_path: Option<&str>,
    cwd: Option<&str>,
    cmdline: Option<&[String]>,
) -> (tags: Vec<TagValue>)
    ensures
        tags_view(tags@) == software_tags(
            window_title@,
            class_view(*window_class),
            text_view(executable_path),
            text_view(cwd),
            cmdline_view(cmdline),
        ),
        first_block(window_title@, 0) is None && first_candidate(window_title@, 0) is None
            ==> tags_view(tags@) == base_tags(
            window_title@,
            class_view(*window_class),
            text_view(executable_path),
            text_view(cwd),
            cmdline_view(cmdline),
        ),
{
    let mut tags: Vec<TagValue> = Vec::new();
    tags.push(TagValue::new("software-window-title", window_title));
    if let Some(exe) = executable_path {
        tags.push(TagValue::new("software-executable-path", exe));
    }
    if let Some(class) = window_class {
        let mut name = append_text(class.0.as_str(), ".");
        name.append(class.1.as_str());
        tags.push(TagValue::new("software-window-class", name.as_str()));
    }
    if let Some(cwd) = cwd {
        if let Some(cmdline) = cmdline {
            if let Ok(path) = match_cmdline_to_filepath(cwd, cmdline) {
                tags.push(TagValue::new("software-opened-file", path.as_str()));
            }
        }
    }
    if let Ok(found) = title_marker_tags(window_title) {
        append_tags(&mut tags, found);
    }
    let found = title_json_tags(window_title);
    append_tags(&mut tags, found);
    tags
}

/// Moves the tags of `more` to the end of `tags`.
fn append_tags(tags: &mut Vec<TagValue>, more: Vec<TagValue>)
    ensures
        tags_view(final(tags)@) == tags_view(old(tags)@) + tags_view(more@),
{
    let mut more = more;
    tags.append(&mut more);
}

/// A title without a marker block and without a candidate for an embedded
/// object gives the base tags and no others.
pub proof fn law_plain_title_gives_base_tags(
    title: Seq<char>,
    class: Option<(Seq<char>, Seq<char>)>,
    executable_path: Option<Seq<char>>,
    cwd: Option<Seq<char>>,
    cmdline: Option<Seq<String>>,
)
    requires
        first_block(title, 0) is None,
        first_candidate(title, 0) is None,
    ensures
        software_tags(title, class, executable_path, cwd, cmdline) == base_tags(
            title,
            class,
            executable_path,
            cwd,
            cmdline,
        ),
{
}

} // verus!
