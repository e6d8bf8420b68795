//! Small decisions of the HTTP side: the addresses to print at start-up, the
//! content type of a static file, and the file extension of an uploaded
//! image.
use vstd::prelude::*;
use vstd::string::StringExecFns;
use crate::text::{contains, contains_chars, lines, lines_of, starts_with, trim, trim_of, words, words_of};

verus! {

/// The address in an `inet <address> ...` line of `ifconfig`, unless it is
/// the loopback address.
pub open spec fn inet_address(line: Seq<char>) -> Option<Seq<char>> {
    let t = trim_of(line);
    if t.len() >= 5 && t.subrange(0, 5) == "inet "@ {
        let ws = words_of(t.subrange(5, t.len() as int));
        if ws.len() > 0 && ws[0] != "127.0.0.1"@ {
            Some(ws[0])
        } else {
            None
        }
    } else {
        None
    }
}

/// The addresses of the lines that hold one, in order.
pub open spec fn addresses_of(ls: Seq<Seq<char>>) -> Seq<Seq<char>>
    decreases ls.len(),
{
    if ls.len() == 0 {
        Seq::empty()
    } else {
        let prev = addresses_of(ls.drop_last());
        match inet_address(ls.last()) {
            Some(a) => prev.push(a),
            None => prev,
        }
    }
}

/// Whether two texts are equal.
pub fn same_text(a: &str, b: &str) -> (r: bool)
    ensures
        r == (a@ == b@),
{
    let x: String = a.to_owned();
    let y: String = b.to_owned();
    x.eq(&y)
}

/// The local addresses that `ifconfig` lists, without the loopback one.
pub fn access_addresses(ifconfig_output: &str) -> (r: Vec<String>)
    ensures
        r@.map_values(|s: String| s@) == addresses_of(lines_of(ifconfig_output@)),
{
    proof {
        reveal_strlit("inet ");
    }
    let ls = lines(ifconfig_output);
    let ghost all = lines_of(ifconfig_output@);
    let mut out: Vec<String> = Vec::new();
    let mut i: usize = 0;
    while i < ls.len()
        invariant
            i <= ls@.len(),
            ls@.len() == all.len(),
            forall|j: int| 0 <= j < ls@.len() ==> #[trigger] ls@[j]@ == all[j],
            out@.map_values(|s: String| s@) == addresses_of(all.subrange(0, i as int)),
            "inet "@.len() == 5,
        decreases ls.len() - i,
    {
        let t = trim(ls[i]);
        let ghost before = out@;
        if starts_with(t, "inet ") {
            let n = t.unicode_len();
            let rest = t.substring_char(5, n);
            let ws = words(rest);
            if ws.len() > 0 && !same_text(ws[0], "127.0.0.1") {
                out.push(ws[0].to_owned());
                assert(out@.map_values(|s: String| s@) =~= before.map_values(|s: String| s@).push(
                    ws@[0]@,
                ));
            }
        }
        assert(all.subrange(0, i + 1).drop_last() =~= all.subrange(0, i as int));
        i = i + 1;
    }
    assert(all.subrange(0, ls@.len() as int) =~= all);
    out
}

/// The content type of a static file by its extension.
pub open spec fn mime_of(ext: Option<Seq<char>>) -> Seq<char> {
    match ext {
        Some(e) => if e == "html"@ {
            "text/html; charset=utf-8"@
        } else if e == "js"@ {
            "application/javascript; charset=utf-8"@
        } else if e == "css"@ {
            "text/css; charset=utf-8"@
        } else if e == "json"@ {
            "application/json"@
        } else if e == "png"@ {
            "image/png"@
        } else if e == "jpg"@ || e == "jpeg"@ {
            "image/jpeg"@
        } else if e == "svg"@ {
            "image/svg+xml"@
        } else if e == "woff2"@ {
            "font/woff2"@
        } else if e == "woff"@ {
            "font/woff"@
        } else if e == "ico"@ {
            "image/x-icon"@
        } else {
            "application/octet-stream"@
        },
        None => "application/octet-stream"@,
    }
}

pub fn mime_for(ext: Option<&str>) -> (r: &'static str)
    ensures
        r@ == mime_of(
            match ext {
                Some(e) => Some(e@),
                None => None,
            },
        ),
{
    let e = match ext {
        Some(e) => e,
        None => return "application/octet-stream",
    };
    if same_text(e, "html") {
        "text/html; charset=utf-8"
    } else if same_text(e, "js") {
        "application/javascript; charset=utf-8"
    } else if same_text(e, "css") {
        "text/css; charset=utf-8"
    } else if same_text(e, "json") {
        "application/json"
    } else if same_text(e, "png") {
        "image/png"
    } else if same_text(e, "jpg") || same_text(e, "jpeg") {
        "image/jpeg"
    } else if same_text(e, "svg") {
        "image/svg+xml"
    } else if same_text(e, "woff2") {
        "font/woff2"
    } else if same_text(e, "woff") {
        "font/woff"
    } else if same_text(e, "ico") {
        "image/x-icon"
    } else {
        "application/octet-stream"
    }
}

/// An upload is accepted only with an `image/...` content type.
pub fn is_image_type(content_type: &str) -> (r: bool)
    ensures
        r == (content_type@.len() >= "image/"@.len() && content_type@.subrange(
            0,
            "image/"@.len() as int,
        ) == "image/"@),
{
    starts_with(content_type, "image/")
}

/// The file extension for an uploaded image of a content type.
pub open spec fn upload_extension_of(content_type: Seq<char>) -> Seq<char> {
    if contains_chars(content_type, "jpeg"@) || contains_chars(content_type, "jpg"@) {
        "jpg"@
    } else if contains_chars(content_type, "gif"@) {
        "gif"@
    } else if contains_chars(content_type, "webp"@) {
        "webp"@
    } else {
        "png"@
    }
}

pub fn upload_extension(content_type: &str) -> (r: &'static str)
    ensures
        r@ == upload_extension_of(content_type@),
{
    if contains(content_type, "jpeg") || contains(content_type, "jpg") {
        "jpg"
    } else if contains(content_type, "gif") {
        "gif"
    } else if contains(content_type, "webp") {
        "webp"
    } else {
        "png"
    }
}

} // verus!
