//! Deciding which links of a document to check, and judging the answers.

use vstd::prelude::*;
use vstd::string::*;
use crate::fence::opt_view;
use crate::text::{chars_of, views};

verus! {

#[verifier::external_type_specification]
#[verifier::external_body]
pub struct ExParseError(url::ParseError);

/// The targets of the links and images of a markdown document, in document
/// order, as `comrak` parses it with its default options.
pub uninterp spec fn markdown_link_urls(src: Seq<char>) -> Seq<Seq<char>>;

/// Relies on `comrak::parse_document` with `comrak::Options::default()`: the
/// `url` of each link and image node of the tree, visited in document order by
/// `descendants`.
#[verifier::external_body]
fn parse_link_urls(src: &str) -> (r: Vec<String>)
    ensures
        views(r@) == markdown_link_urls(src@),
{
    let arena = comrak::Arena::new();
    let root = comrak::parse_document(&arena, src, &comrak::Options::default());
    let mut r = Vec::new();
    for node in root.descendants() {
        match &node.data.borrow().value {
            comrak::nodes::NodeValue::Link(link) => r.push(link.url.clone()),
            comrak::nodes::NodeValue::Image(link) => r.push(link.url.clone()),
            _ => {},
        }
    }
    r
}

/// The host that `url::Url::parse` finds in `link`: `None` when parsing
/// fails, `Some(None)` for a URL without a host.
pub uninterp spec fn url_host(link: Seq<char>) -> Option<Option<Seq<char>>>;

/// Relies on `url::Url::parse` and `url::Url::host_str`: parses `link` as an
/// absolute URL and gives its host.
#[verifier::external_body]
fn parse_url_host(link: &str) -> (r: Result<Option<String>, url::ParseError>)
    ensures
        match r {
            Ok(host) => url_host(link@) == Some(opt_view(host)),
            Err(_) => url_host(link@) is None,
        },
{
    let parsed = url::Url::parse(link)?;
    match parsed.host_str() {
        Some(host) => Ok(Some(host.to_string())),
        None => Ok(None),
    }
}

/// Whether `url` points outside the documentation: it starts with `http`.
pub open spec fn is_external(url: Seq<char>) -> bool {
    url.len() >= 4 && url.take(4) == seq!['h', 't', 't', 'p']
}

/// The external targets among `urls`, in order.
pub open spec fn external_only(urls: Seq<Seq<char>>) -> Seq<Seq<char>> {
    urls.filter(|u: Seq<char>| is_external(u))
}

fn starts_with_http(u: &str) -> (r: bool)
    ensures
        r == is_external(u@),
{
    let c = chars_of(u);
    let r = c.len() >= 4 && c[0] == 'h' && c[1] == 't' && c[2] == 't' && c[3] == 'p';
    if c.len() >= 4 && !r {
        assert(c@.take(4)[0] != 'h' || c@.take(4)[1] != 't' || c@.take(4)[2] != 't'
            || c@.take(4)[3] != 'p');
    }
    if r {
        assert(c@.take(4) =~= seq!['h', 't', 't', 'p']);
    }
    r
}

/// Keeps the targets that start with `http`, in order.
pub fn external_links(urls: &Vec<String>) -> (r: Vec<String>)
    ensures
        views(r@) == external_only(views(urls@)),
{
    let ghost all = views(urls@);
    let mut r: Vec<String> = Vec::new();
    let mut i: usize = 0;
    while i < urls.len()
        invariant
            all == views(urls@),
            i <= urls@.len(),
            views(r@) == external_only(all.take(i as int)),
        decreases urls@.len() - i,
    {
        let ghost before = r@;
        assert(all.take(i + 1).drop_last() =~= all.take(i as int));
        assert(all.take(i + 1).last() == urls@[i as int]@);
        reveal(Seq::filter);
        if starts_with_http(urls[i].as_str()) {
            r.push(urls[i].clone());
            assert(views(r@) =~= views(before).push(urls@[i as int]@));
        }
        i += 1;
    }
    assert(all.take(urls@.len() as int) =~= all);
    r
}

/// The external link and image targets of a markdown document, in document
/// order.
pub fn external_links_of_markdown(src: &str) -> (r: Vec<String>)
    ensures
        views(r@) == external_only(markdown_link_urls(src@)),
{
    let urls = parse_link_urls(src);
    external_links(&urls)
}

/// The one host whose links are not fetched: it answers every request for
/// an HTML page with success.
pub open spec fn excluded_host() -> Seq<char> {
    seq!['c', 'r', 'a', 't', 'e', 's', '.', 'i', 'o']
}

/// Whether links to `host` are left unchecked.
pub fn is_excluded_host(host: &str) -> (r: bool)
    ensures
        r == (host@ == excluded_host()),
{
    proof {
        reveal_strlit("crates.io");
        assert("crates.io"@ =~= excluded_host());
    }
    String::from_str(host) == String::from_str("crates.io")
}

/// What to do with a link.
#[derive(Clone, Copy, Debug, PartialEq, Eq, Structural)]
pub enum LinkAction {
    /// The host is excluded: do not fetch.
    Skip,
    /// Fetch the link and judge its status.
    Fetch,
}

/// Why a link failed its check.
#[derive(Clone, Debug, PartialEq, Eq)]
pub enum LinkError {
    /// The link is not a valid absolute URL.
    InvalidUrl(String),
    /// The link answered with a status outside 200 to 299.
    Broken(String, u16),
}

/// Decides whether `link` is fetched: it must parse as a URL, and a link to
/// the excluded host is skipped (a URL without a host counts as the empty
/// host).
pub fn link_action(link: &str) -> (r: Result<LinkAction, LinkError>)
    ensures
        r is Err <==> url_host(link@) is None,
        r matches Err(LinkError::InvalidUrl(l)) ==> l@ == link@,
        r matches Ok(a) ==> (a == LinkAction::Skip <==> url_host(link@) == Some(
            Some(excluded_host()),
        )),
{
    match parse_url_host(link) {
        Err(_) => Err(LinkError::InvalidUrl(String::from_str(link))),
        Ok(Some(host)) => {
            if is_excluded_host(host.as_str()) {
                Ok(LinkAction::Skip)
            } else {
                Ok(LinkAction::Fetch)
            }
        },
        Ok(None) => Ok(LinkAction::Fetch),
    }
}

/// Judges the status that fetching `link` answered with: success is 200 to
/// 299.
pub fn check_status(link: &str, status: u16) -> (r: Result<(), LinkError>)
    ensures
        r is Ok <==> 200 <= status <= 299,
        r matches Err(LinkError::Broken(l, s)) ==> l@ == link@ && s == status,
        !(r matches Err(LinkError::InvalidUrl(_))),
{
    if 200 <= status && status <= 299 {
        Ok(())
    } else {
        Err(LinkError::Broken(String::from_str(link), status))
    }
}

} // verus!
