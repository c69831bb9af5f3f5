//! Choosing and shaping previews: which files are shown as text, the text
//! window around a target line, and which view a cell shows.
use vstd::prelude::*;
use crate::paths::{path_file_name, file_name_of};
use crate::purse::state::{ItemKind, PreviewPayload};
use crate::purse::thumbnailer::{cache_path_spec, cached, gave_up, request};
use crate::text::{
    chars_of, starts_with_in, starts_with, join, join_strings, texts,
    concat, own,
};

verus! {

/// Width of a preview cell, in pixels.
pub const PREVIEW_WIDTH: i32 = 240;

/// Height of a preview cell, in pixels.
pub const PREVIEW_HEIGHT: i32 = 10;

/// Whether files of this MIME type are previewed as text: `text/*`; every
/// other type goes to the thumbnailer.
pub open spec fn is_text_mime_spec(mime: Seq<char>) -> bool {
    starts_with(mime, "text/"@)
}

/// Whether a file of MIME type `mime` is previewed as text (else through
/// the thumbnailer).
pub fn is_text_mime(mime: &str) -> (r: bool)
    ensures
        r == is_text_mime_spec(mime@),
{
    let m = chars_of(mime);
    let text_prefix = chars_of("text/");
    starts_with_in(&m, &text_prefix)
}

/// How a file is previewed.
#[derive(Debug, Clone, Copy, PartialEq, Eq)]
pub enum PreviewRoute {
    /// Read its lines and show them as text.
    Text,
    /// Ask the thumbnail cache / thumbnailer for an image.
    Thumbnail,
}

/// The route for a file of MIME type `mime`.
pub fn preview_route(mime: &str) -> (r: PreviewRoute)
    ensures
        r == (if is_text_mime_spec(mime@) {
            PreviewRoute::Text
        } else {
            PreviewRoute::Thumbnail
        }),
{
    if is_text_mime(mime) {
        PreviewRoute::Text
    } else {
        PreviewRoute::Thumbnail
    }
}

/// The 0-based index of a 1-based target line (line 0 counts as line 1).
pub open spec fn target_index(target: u32) -> int {
    if target == 0 {
        0
    } else {
        target - 1
    }
}

/// The first line shown around target index `idx`: ten lines before it.
pub open spec fn window_start(idx: int) -> int {
    if idx < 10 {
        0
    } else {
        idx - 10
    }
}

/// One past the last line shown: ten lines after `idx`, within the file.
pub open spec fn window_end(idx: int, n: int) -> int {
    if idx + 11 < n {
        idx + 11
    } else {
        n
    }
}

/// The line at `i`, marked `-> ` when it is the target `idx`.
pub open spec fn marked_line(lines: Seq<Seq<char>>, i: int, idx: int) -> Seq<char> {
    (if i == idx {
        "-> "@
    } else {
        "   "@
    }) + lines[i]
}

/// The lines of a text preview. Without a target: the first 20 lines.
/// With one: the lines from ten before to ten after it, the target marked
/// `-> ` and the others indented, with `...` above when lines were skipped
/// before the window and below when lines follow it. A target more than
/// ten lines past the end of the file has an empty window: the preview is
/// `...` alone, with no line marked.
pub open spec fn preview_lines(lines: Seq<Seq<char>>, target: Option<u32>) -> Seq<Seq<char>> {
    match target {
        None => lines.take(if lines.len() < 20 { lines.len() as int } else { 20 }),
        Some(t) => {
            let idx = target_index(t);
            let start = window_start(idx);
            let end = window_end(idx, lines.len() as int);
            (if start > 0 { seq!["..."@] } else { Seq::empty() }) + Seq::new(
                if start <= end { (end - start) as nat } else { 0 },
                |k: int| marked_line(lines, start + k, idx),
            ) + (if end < lines.len() { seq!["..."@] } else { Seq::empty() })
        },
    }
}

/// The text shown for a text file given its lines: the lines of
/// `preview_lines`, one per line.
pub fn text_preview(lines: &Vec<String>, target: Option<u32>) -> (r: String)
    ensures
        r@ == join(preview_lines(texts(lines@), target), "\n"@),
{
    let n = lines.len();
    let mut shown: Vec<String> = Vec::new();
    let ghost ls = texts(lines@);
    match target {
        None => {
            let k: usize = if n < 20 {
                n
            } else {
                20
            };
            for i in 0..k
                invariant
                    k <= n == lines.len(),
                    texts(shown@) == ls.take(i as int),
                    ls == texts(lines@),
            {
                let ghost before = shown@;
                shown.push(lines[i].clone());
                assert(texts(shown@) =~= texts(before).push(lines@[i as int]@));
                assert(ls.take(i + 1) =~= ls.take(i as int).push(ls[i as int]));
            }
            assert(texts(shown@) =~= preview_lines(ls, target));
        },
        Some(t) => {
            let idx: u64 = if t == 0 {
                0
            } else {
                (t - 1) as u64
            };
            let start: u64 = if idx < 10 {
                0
            } else {
                idx - 10
            };
            let end: u64 = if idx + 11 < n as u64 {
                idx + 11
            } else {
                n as u64
            };
            let ghost head: Seq<Seq<char>> = if start > 0 { seq!["..."@] } else { Seq::empty() };
            if start > 0 {
                shown.push(own("..."));
            }
            assert(texts(shown@) =~= head);
            let mut i: u64 = start;
            let stop: u64 = if start <= end {
                end
            } else {
                start
            };
            while i < stop
                invariant
                    start <= i <= stop <= n == lines.len() || (i == start && stop == start),
                    stop == (if start <= end { end } else { start }),
                    end <= n == lines.len(),
                    ls == texts(lines@),
                    texts(shown@) =~= head + Seq::new(
                        (i - start) as nat,
                        |k: int| marked_line(ls, start + k, idx as int),
                    ),
                decreases stop - i,
            {
                let marker = if i == idx {
                    "-> "
                } else {
                    "   "
                };
                let line = concat(marker, lines[i as usize].as_str());
                let ghost before = shown@;
                shown.push(line);
                assert(line@ == marked_line(ls, i as int, idx as int));
                assert(texts(shown@) =~= texts(before).push(line@));
                i = i + 1;
            }
            assert(idx as int == target_index(t));
            assert(start as int == window_start(idx as int));
            assert(end as int == window_end(idx as int, n as int));
            let ghost body = texts(shown@);
            if end < n as u64 {
                shown.push(own("..."));
                assert(texts(shown@) =~= body.push("..."@));
            }
            assert(texts(shown@) =~= preview_lines(ls, target));
        },
    }
    join_strings(&shown, "\n")
}

/// The preview of a file that is not text: its cached thumbnail
/// (`in_cache` reports whether the cache holds it), else one asked of the
/// thumbnailer, polled with `is_on_disk` (see `thumbnailer::request`); an
/// error only when the cache missed and the wait for the thumbnailer gave
/// up (see `gave_up`). A thumbnail is returned only when it was seen on
/// disk at its cache path.
pub fn thumbnail_preview<Q, C, E, D, S>(
    path: &str,
    mime: &str,
    dir: &str,
    queue: Q,
    in_cache: &C,
    is_on_disk: &E,
    before_deadline: D,
    pause: S,
    max_polls: u32,
) -> (r: Result<PreviewPayload, ()>) where
    Q: Fn(&str, &str) -> bool,
    C: Fn(&str) -> bool,
    E: Fn(&str, u32) -> bool,
    D: Fn(u32) -> bool,
    S: Fn(u32),

    requires
        forall|u: &str, m: &str| queue.requires((u, m)),
        forall|p: &str| in_cache.requires((p,)),
        forall|p: &str, k: u32| is_on_disk.requires((p, k)),
        forall|k: u32| before_deadline.requires((k,)),
        forall|k: u32| pause.requires((k,)),
    ensures
        r matches Ok(p) ==> p matches PreviewPayload::Image(t) && t@ == cache_path_spec(path@, dir@) && (
        (exists|x: &str| x@ == t@ && in_cache.ensures((x,), true)) || exists|x: &str, k: u32|
            x@ == t@ && k < max_polls && is_on_disk.ensures((x, k), true)),
        r is Err ==> (exists|x: &str| x@ == cache_path_spec(path@, dir@) && in_cache.ensures((x,), false))
            && gave_up(path@, mime, dir@, max_polls, queue, *is_on_disk, before_deadline, pause),
{
    match cached(path, dir, in_cache) {
        Some(t) => Ok(PreviewPayload::Image(t)),
        None => match request(path, mime, dir, queue, is_on_disk, before_deadline, pause, max_polls) {
            Some(t) => Ok(PreviewPayload::Image(t)),
            None => Err(()),
        },
    }
}

/// The name of the stack page a cell starts on: a spinner while a file's
/// preview is pending, the text view for a snippet.
pub fn initial_page(kind: &ItemKind) -> (r: &'static str)
    ensures
        r@ == (match *kind {
            ItemKind::File { .. } => "pending"@,
            ItemKind::Transient { .. } => "text"@,
        }),
{
    match kind {
        ItemKind::File { .. } => "pending",
        ItemKind::Transient { .. } => "text",
    }
}

/// The label under a cell: a file's name, or a snippet's label.
pub fn cell_label(kind: &ItemKind) -> (r: Option<String>)
    ensures
        match *kind {
            ItemKind::File { path, .. } => match path_file_name(path@) {
                Some(n) => r matches Some(x) && x@ == n,
                None => r is None,
            },
            ItemKind::Transient { label, .. } => r matches Some(x) && x@ == label@,
        },
{
    match kind {
        ItemKind::File { path, .. } => file_name_of(path.as_str()),
        ItemKind::Transient { label, .. } => Some(label.clone()),
    }
}

/// The stack page a finished preview shows, and whether the file name
/// label stays visible under it: it does not, whatever the preview (the
/// label is only needed while the preview is pending).
pub fn preview_page(payload: &PreviewPayload) -> (r: (&'static str, bool))
    ensures
        r.0@ == (match *payload {
            PreviewPayload::Text { .. } => "text"@,
            PreviewPayload::Image(_) => "image"@,
            PreviewPayload::Icon { .. } => "icon"@,
        }),
        !r.1,
{
    match payload {
        PreviewPayload::Text { .. } => ("text", false),
        PreviewPayload::Image(_) => ("image", false),
        PreviewPayload::Icon { .. } => ("icon", false),
    }
}

} // verus!
