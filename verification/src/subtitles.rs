//! Subtitle search glue: the request URL for the third-party search API,
//! the shaping and capping of its raw candidates, and the download
//! location for a chosen candidate.

use vstd::prelude::*;
use vstd::string::StringExecFns;
use vstd::string::StrSliceExecFns;

verus! {

/// Cap on candidates handed back from one search.
pub const MAX_SUBTITLE_RESULTS: usize = 10;

/// One search result offered to the user.
pub struct Subtitle {
    pub id: String,
    pub language: String,
    pub release_name: String,
    pub download_url: String,
}

/// Mathematical image of one result.
pub struct SubtitleModel {
    pub id: Seq<char>,
    pub language: Seq<char>,
    pub release_name: Seq<char>,
    pub download_url: Seq<char>,
}

impl View for Subtitle {
    type V = SubtitleModel;

    open spec fn view(&self) -> SubtitleModel {
        SubtitleModel {
            id: self.id@,
            language: self.language@,
            release_name: self.release_name@,
            download_url: self.download_url@,
        }
    }
}

impl DeepView for Subtitle {
    type V = SubtitleModel;

    open spec fn deep_view(&self) -> SubtitleModel {
        self.view()
    }
}

/// One raw candidate as the search API reported it, every field optional.
pub struct SubtitleCandidate {
    pub url: Option<String>,
    pub language: Option<String>,
    pub release_name: Option<String>,
}

/// Mathematical image of one raw candidate.
pub struct CandidateModel {
    pub url: Option<Seq<char>>,
    pub language: Option<Seq<char>>,
    pub release_name: Option<Seq<char>>,
}

impl View for SubtitleCandidate {
    type V = CandidateModel;

    open spec fn view(&self) -> CandidateModel {
        CandidateModel {
            url: match &self.url {
                Some(u) => Some(u@),
                None => None,
            },
            language: match &self.language {
                Some(l) => Some(l@),
                None => None,
            },
            release_name: match &self.release_name {
                Some(r) => Some(r@),
                None => None,
            },
        }
    }
}

impl DeepView for SubtitleCandidate {
    type V = CandidateModel;

    open spec fn deep_view(&self) -> CandidateModel {
        self.view()
    }
}

/// Language recorded when the candidate names none.
pub open spec fn default_language() -> Seq<char> {
    "tr"@
}

/// Release label recorded when the candidate names none.
pub open spec fn default_release() -> Seq<char> {
    "Unknown"@
}

/// The result built from one candidate: dropped without a URL, otherwise
/// the URL doubles as identifier and download location, with fallbacks
/// for the optional fields.
pub open spec fn spec_subtitle_of(c: CandidateModel) -> Option<SubtitleModel> {
    match c.url {
        Some(u) => Some(
            SubtitleModel {
                id: u,
                language: match c.language {
                    Some(l) => l,
                    None => default_language(),
                },
                release_name: match c.release_name {
                    Some(r) => r,
                    None => default_release(),
                },
                download_url: u,
            },
        ),
        None => None,
    }
}

/// Results from the first `cap` candidates, in order, keeping those with
/// a URL.
pub open spec fn spec_subtitles(cands: Seq<CandidateModel>, cap: nat) -> Seq<SubtitleModel>
    decreases cands.len(),
{
    if cands.len() == 0 || cap == 0 {
        Seq::<SubtitleModel>::empty()
    } else {
        match spec_subtitle_of(cands[0]) {
            Some(s) => seq![s] + spec_subtitles(cands.drop_first(), (cap - 1) as nat),
            None => spec_subtitles(cands.drop_first(), (cap - 1) as nat),
        }
    }
}

/// Never more results than the cap, however many candidates came back.
pub proof fn lemma_subtitles_capped(cands: Seq<CandidateModel>, cap: nat)
    ensures
        spec_subtitles(cands, cap).len() <= cap,
    decreases cands.len(),
{
    if cands.len() > 0 && cap > 0 {
        lemma_subtitles_capped(cands.drop_first(), (cap - 1) as nat);
    }
}

/// Shape the search API's raw candidates into at most
/// [`MAX_SUBTITLE_RESULTS`] results.
pub fn subtitles_from_items(items: Vec<SubtitleCandidate>) -> (r: Vec<Subtitle>)
    ensures
        r.deep_view() == spec_subtitles(items.deep_view(), MAX_SUBTITLE_RESULTS as nat),
        r@.len() <= MAX_SUBTITLE_RESULTS,
{
    let mut r: Vec<Subtitle> = Vec::new();
    let mut i: usize = 0;
    proof {
        assert(items.deep_view().skip(0) =~= items.deep_view());
        assert(r.deep_view() =~= Seq::<SubtitleModel>::empty());
        assert(Seq::<SubtitleModel>::empty() + spec_subtitles(
            items.deep_view(),
            MAX_SUBTITLE_RESULTS as nat,
        ) =~= spec_subtitles(items.deep_view(), MAX_SUBTITLE_RESULTS as nat));
    }
    while i < items.len() && i < MAX_SUBTITLE_RESULTS
        invariant
            i <= items@.len(),
            i <= MAX_SUBTITLE_RESULTS,
            r@.len() <= i,
            items.deep_view().len() == items@.len(),
            spec_subtitles(items.deep_view(), MAX_SUBTITLE_RESULTS as nat) =~= r.deep_view()
                + spec_subtitles(
                items.deep_view().skip(i as int),
                (MAX_SUBTITLE_RESULTS - i) as nat,
            ),
        decreases items@.len() - i,
    {
        let ghost rest = items.deep_view().skip(i as int);
        let ghost cap = (MAX_SUBTITLE_RESULTS - i) as nat;
        proof {
            assert(rest[0] == items.deep_view()[i as int]);
            assert(rest.drop_first() =~= items.deep_view().skip(i + 1));
        }
        let c = &items[i];
        proof {
            assert(items.deep_view()[i as int] == items@[i as int].deep_view());
        }
        match &c.url {
            Some(u) => {
                let s = Subtitle {
                    id: u.clone(),
                    language: match &c.language {
                        Some(l) => l.clone(),
                        None => String::from_str("tr"),
                    },
                    release_name: match &c.release_name {
                        Some(rn) => rn.clone(),
                        None => String::from_str("Unknown"),
                    },
                    download_url: u.clone(),
                };
                let ghost sv = s@;
                let ghost old_r = r.deep_view();
                r.push(s);
                proof {
                    assert(spec_subtitle_of(rest[0]) == Some(sv));
                    assert(r.deep_view() =~= old_r.push(sv));
                    assert(old_r.push(sv) =~= old_r + seq![sv]);
                    assert(spec_subtitles(rest, cap) == seq![sv] + spec_subtitles(
                        rest.drop_first(),
                        (cap - 1) as nat,
                    ));
                }
            },
            None => {
                proof {
                    assert(spec_subtitle_of(rest[0]) is None);
                    assert(spec_subtitles(rest, cap) == spec_subtitles(
                        rest.drop_first(),
                        (cap - 1) as nat,
                    ));
                }
            },
        }
        i = i + 1;
    }
    proof {
        if i == MAX_SUBTITLE_RESULTS {
            assert(spec_subtitles(items.deep_view().skip(i as int), 0nat)
                =~= Seq::<SubtitleModel>::empty());
        } else {
            assert(items.deep_view().skip(i as int) =~= Seq::<CandidateModel>::empty());
        }
        assert(r.deep_view() + Seq::<SubtitleModel>::empty() =~= r.deep_view());
    }
    r
}

/// Names the result of urlencoding::encode: the percent-encoding of the
/// text's UTF-8 bytes, a function of the text alone.
pub uninterp spec fn encoded_of(s: Seq<char>) -> Seq<char>;

/// Relies on urlencoding::encode: percent-encodes every byte except
/// ASCII alphanumerics and `-`, `_`, `.`, `~`; an empty input encodes to
/// an empty output.
#[verifier::external_body]
fn encode_component(s: &str) -> (r: String)
    ensures
        r@ == encoded_of(s@),
        s@.len() == 0 ==> r@.len() == 0,
{
    urlencoding::encode(s).into_owned()
}

/// The search API request URL for a free-text query.
pub open spec fn spec_search_url(query: Seq<char>) -> Seq<char> {
    "https://api.subdl.com/api/v1/subtitles?film_name="@ + encoded_of(query) + "&languages=tr"@
}

/// Build the search request URL around the percent-encoded query.
pub fn search_url(query: &str) -> (r: String)
    ensures
        r@ == spec_search_url(query@),
{
    let mut u = String::from_str("https://api.subdl.com/api/v1/subtitles?film_name=");
    let enc = encode_component(query);
    u.append(enc.as_str());
    u.append("&languages=tr");
    u
}

/// Whether the identifier is already an absolute URL.
pub open spec fn spec_is_http(s: Seq<char>) -> bool {
    s.len() >= 4 && s.subrange(0, 4) == "http"@
}

/// Where a chosen candidate is fetched from: its identifier when that is
/// already a URL, otherwise the download host with the identifier as
/// path.
pub open spec fn spec_download_url(file_id: Seq<char>) -> Seq<char> {
    if spec_is_http(file_id) {
        file_id
    } else {
        "https://dl.subdl.com"@ + file_id
    }
}

/// Resolve a candidate identifier to its download URL.
pub fn download_url_for(file_id: String) -> (r: String)
    ensures
        r@ == spec_download_url(file_id@),
{
    proof {
        reveal_strlit("http");
    }
    let s = file_id.as_str();
    let n = s.unicode_len();
    let is_http = if n >= 4 {
        let h = s.get_char(0) == 'h' && s.get_char(1) == 't' && s.get_char(2) == 't'
            && s.get_char(3) == 'p';
        proof {
            if h {
                assert(file_id@.subrange(0, 4) =~= "http"@);
            } else {
                assert(file_id@.subrange(0, 4) != "http"@) by {
                    if file_id@.subrange(0, 4) == "http"@ {
                        assert(file_id@.subrange(0, 4)[0] == 'h');
                        assert(file_id@.subrange(0, 4)[1] == 't');
                        assert(file_id@.subrange(0, 4)[2] == 't');
                        assert(file_id@.subrange(0, 4)[3] == 'p');
                    }
                }
            }
        }
        h
    } else {
        false
    };
    if is_http {
        file_id
    } else {
        let mut u = String::from_str("https://dl.subdl.com");
        u.append(file_id.as_str());
        u
    }
}

} // verus!
