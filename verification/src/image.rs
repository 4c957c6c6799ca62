//! Images of a story: where they are loaded from, which are in flight, and what
//! a loaded one holds.
use vstd::prelude::*;
use crate::email::opt_view;
use crate::markdown::url_parses;
use crate::text::same_text;

verus! {

/// A downloaded image.
pub struct Image {
    pub bytes: Vec<u8>,
    pub url: String,
    pub is_svg: bool,
}

/// The address that `reqwest::Url::parse(base)` followed by `join(reference)`
/// gives, serialized; `None` where either fails.
pub uninterp spec fn joined_url(base: Seq<char>, reference: Seq<char>) -> Option<Seq<char>>;

/// Resolves `reference` against `base` with the `url` crate as `reqwest`
/// re-exports it: `Url::parse(base)`, then `Url::join(reference)`, serialized.
/// Claimed: the result is `joined_url(base@, reference@)`, a function of the two
/// strings, and it is `None` where `Url::parse` refuses the base; nothing is
/// claimed of its text.
#[verifier::external_body]
fn join_url(base: &str, reference: &str) -> (r: Option<String>)
    ensures
        opt_view(r) == joined_url(base@, reference@),
        !url_parses(base@) ==> r is None,
{
    match reqwest::Url::parse(base) {
        Ok(b) => b.join(reference).ok().map(|u| u.to_string()),
        Err(_) => None,
    }
}

/// Where an image is loaded from: its link resolved against the story's
/// address when there is one and both parse, else the link as it is.
pub open spec fn resolved_image_url(url: Seq<char>, base: Option<Seq<char>>) -> Seq<char> {
    match base {
        Some(b) => match joined_url(b, url) {
            Some(j) => j,
            None => url,
        },
        None => url,
    }
}

/// Every link is resolved against the story's address whenever the two join:
/// the image is loaded from the joined address, and from the link itself only
/// when there is no address or the join fails.
pub proof fn image_address_law(url: Seq<char>, base: Option<Seq<char>>)
    ensures
        base matches Some(b) ==> (joined_url(b, url) is Some ==> Some(
            resolved_image_url(url, base),
        ) == joined_url(b, url)),
        base matches Some(b) ==> (joined_url(b, url) is None ==> resolved_image_url(url, base)
            == url),
        base is None ==> resolved_image_url(url, base) == url,
{
}

/// Where an image with link `url` in a story at `base_url` is loaded from.
pub fn resolve_image_url(url: &str, base_url: Option<String>) -> (r: String)
    ensures
        r@ == resolved_image_url(url@, opt_view(base_url)),
        base_url matches Some(b) ==> (joined_url(b@, url@) is Some ==> Some(r@) == joined_url(
            b@,
            url@,
        )),
        base_url is None ==> r@ == url@,
        base_url matches Some(b) ==> (joined_url(b@, url@) is None ==> r@ == url@),
{
    match base_url {
        Some(b) => match join_url(b.as_str(), url) {
            Some(j) => j,
            None => url.to_owned(),
        },
        None => url.to_owned(),
    }
}

/// The bytes that start an SVG document, `<svg `.
pub open spec fn svg_start() -> Seq<u8> {
    seq![0x3cu8, 0x73u8, 0x76u8, 0x67u8, 0x20u8]
}

/// Bytes that start with `<svg `.
pub open spec fn looks_like_svg(bytes: Seq<u8>) -> bool {
    bytes.len() >= 5 && bytes.take(5) == svg_start()
}

/// The image made of downloaded bytes for the link `url`.
pub fn image_from_bytes(url: String, bytes: Vec<u8>) -> (img: Image)
    ensures
        img.url@ == url@,
        img.bytes@ == bytes@,
        img.is_svg == looks_like_svg(bytes@),
{
    let is_svg = bytes.len() >= 5 && bytes[0] == 0x3c && bytes[1] == 0x73 && bytes[2] == 0x76
        && bytes[3] == 0x67 && bytes[4] == 0x20;
    proof {
        if bytes@.len() >= 5 {
            if is_svg {
                assert(bytes@.take(5) =~= svg_start());
            } else {
                assert(bytes@.take(5) != svg_start()) by {
                    if bytes@.take(5) == svg_start() {
                        assert(bytes@.take(5)[0] == bytes@[0]);
                        assert(bytes@.take(5)[1] == bytes@[1]);
                        assert(bytes@.take(5)[2] == bytes@[2]);
                        assert(bytes@.take(5)[3] == bytes@[3]);
                        assert(bytes@.take(5)[4] == bytes@[4]);
                    }
                }
            }
        }
    }
    Image { bytes, url, is_svg }
}

/// The images whose download has started while a story is shown.
pub struct ImageRequests {
    pub urls: Vec<String>,
}

pub open spec fn in_flight(urls: Seq<String>, url: Seq<char>) -> bool {
    exists|i: int| 0 <= i < urls.len() && #[trigger] urls[i]@ == url
}

impl ImageRequests {
    /// No image is requested twice.
    pub open spec fn wf(&self) -> bool {
        forall|i: int, j: int|
            0 <= i < j < self.urls@.len() ==> #[trigger] self.urls@[i]@ != #[trigger] self.urls@[j]@
    }

    pub fn new() -> (r: ImageRequests)
        ensures
            r.wf(),
            r.urls@.len() == 0,
    {
        ImageRequests { urls: Vec::new() }
    }

    /// Records a request for `url`: true when it is new and its download must
    /// start, false when it is already under way.
    pub fn request(&mut self, url: &str) -> (fresh: bool)
        ensures
            old(self).wf() ==> final(self).wf(),
            fresh == !in_flight(old(self).urls@, url@),
            in_flight(final(self).urls@, url@),
            forall|u: Seq<char>| u != url@ ==> (in_flight(final(self).urls@, u) == in_flight(old(self).urls@, u)),
    {
        let mut i: usize = 0;
        while i < self.urls.len()
            invariant
                i <= self.urls.len(),
                self.urls@ == old(self).urls@,
                forall|j: int| 0 <= j < i ==> self.urls@[j]@ != url@,
            decreases self.urls.len() - i,
        {
            if same_text(self.urls[i].as_str(), url) {
                assert(self.urls@[i as int]@ == url@);
                return false;
            }
            i = i + 1;
        }
        let ghost before = self.urls@;
        self.urls.push(url.to_owned());
        assert(self.urls@[before.len() as int]@ == url@);
        assert forall|u: Seq<char>| u != url@ implies (in_flight(self.urls@, u) == in_flight(before, u)) by {
            if in_flight(self.urls@, u) {
                let k = choose|k: int| 0 <= k < self.urls@.len() && #[trigger] self.urls@[k]@ == u;
                assert(k < before.len());
                assert(before[k]@ == u);
            }
            if in_flight(before, u) {
                let k = choose|k: int| 0 <= k < before.len() && #[trigger] before[k]@ == u;
                assert(self.urls@[k]@ == u);
            }
        }
        true
    }

    /// Forgets every request, as when another story is shown.
    pub fn clear(&mut self)
        ensures
            final(self).wf(),
            final(self).urls@.len() == 0,
    {
        self.urls = Vec::new();
    }
}

} // verus!
