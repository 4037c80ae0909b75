//! The prompt augmenter: an optional, strictly best-effort pre-step that asks
//! a web-search provider for context and rewrites the outbound prompt around
//! the results. A blank credential is rejected before any call is planned,
//! and every provider failure falls back silently to the original query — the
//! chat turn is never blocked or failed by augmentation.
use vstd::prelude::*;
use vstd::string::*;

use crate::parse::{parse_search_body, search_items_of, view_opt, RawSearchItem, RawSearchItemView};
use crate::text::{dec_digits, trim_blank, trim_str, u64_to_dec};

verus! {

/// One usable search result: title and url are required, the description may
/// be empty.
pub struct BraveSearchResult {
    pub title: String,
    pub url: String,
    pub description: String,
}

/// The mathematical value of a [`BraveSearchResult`].
#[verifier::ext_equal]
pub ghost struct BraveSearchResultView {
    pub title: Seq<char>,
    pub url: Seq<char>,
    pub description: Seq<char>,
}

impl View for BraveSearchResult {
    type V = BraveSearchResultView;

    open spec fn view(&self) -> BraveSearchResultView {
        BraveSearchResultView { title: self.title@, url: self.url@, description: self.description@ }
    }
}

impl DeepView for BraveSearchResult {
    type V = BraveSearchResultView;

    open spec fn deep_view(&self) -> BraveSearchResultView {
        self.view()
    }
}

/// The outcome of one search attempt, as handed back to the chat turn or to
/// the diagnostic credential test.
pub struct BraveSearchResponse {
    pub success: bool,
    pub results: Vec<BraveSearchResult>,
    pub error: Option<String>,
}

/// The mathematical value of a [`BraveSearchResponse`].
#[verifier::ext_equal]
pub ghost struct BraveSearchResponseView {
    pub success: bool,
    pub results: Seq<BraveSearchResultView>,
    pub error: Option<Seq<char>>,
}

impl View for BraveSearchResponse {
    type V = BraveSearchResponseView;

    open spec fn view(&self) -> BraveSearchResponseView {
        BraveSearchResponseView {
            success: self.success,
            results: self.results.deep_view(),
            error: view_opt(self.error),
        }
    }
}

/// The rejection for a blank credential.
pub open spec fn spec_token_missing_response() -> BraveSearchResponseView {
    BraveSearchResponseView {
        success: false,
        results: Seq::empty(),
        error: Some("API token is required"@),
    }
}

/// How one search attempt is to proceed: an immediate rejection, or one
/// bounded provider call with the trimmed credential.
pub enum SearchPlan {
    Reject(BraveSearchResponse),
    Call(String),
}

/// Decides a search attempt. A blank credential is rejected at once — no
/// provider call is planned for it; any other credential is trimmed and
/// handed back for exactly one bounded call.
pub fn plan_brave_search(api_token: &str) -> (p: SearchPlan)
    ensures
        trim_blank(api_token@).len() == 0 ==> p is Reject && p->Reject_0@
            == spec_token_missing_response(),
        trim_blank(api_token@).len() > 0 ==> p is Call && p->Call_0@ == trim_blank(api_token@),
{
    let trimmed = trim_str(api_token);
    if trimmed.is_empty() {
        let r = BraveSearchResponse {
            success: false,
            results: Vec::new(),
            error: Some(String::from_str("API token is required")),
        };
        proof {
            assert(r@ =~= spec_token_missing_response());
        }
        SearchPlan::Reject(r)
    } else {
        SearchPlan::Call(String::from_str(trimmed))
    }
}

/// The user-facing message for a provider error status: invalid credential,
/// rate limited, or generic with the numeric code.
pub open spec fn spec_status_message(code: u16) -> Seq<char> {
    if code == 401 {
        "Invalid API token"@
    } else if code == 429 {
        "Rate limit exceeded"@
    } else {
        "API error: "@ + dec_digits(code as nat)
    }
}

/// Builds the message of [`spec_status_message`].
pub fn status_message(code: u16) -> (s: String)
    ensures
        s@ == spec_status_message(code),
{
    if code == 401 {
        String::from_str("Invalid API token")
    } else if code == 429 {
        String::from_str("Rate limit exceeded")
    } else {
        let mut s = String::from_str("API error: ");
        let digits = u64_to_dec(code as u64);
        s.append(digits.as_str());
        s
    }
}

/// What the provider call came back with: a transport failure, an error
/// status, or a response body.
pub enum ProviderReply {
    TransportFailure(String),
    ErrorStatus(u16),
    Body(String),
}

/// The mathematical value of a [`ProviderReply`].
#[verifier::ext_equal]
pub enum ProviderReplyView {
    TransportFailure(Seq<char>),
    ErrorStatus(u16),
    Body(Seq<char>),
}

impl View for ProviderReply {
    type V = ProviderReplyView;

    open spec fn view(&self) -> ProviderReplyView {
        match self {
            ProviderReply::TransportFailure(e) => ProviderReplyView::TransportFailure(e@),
            ProviderReply::ErrorStatus(c) => ProviderReplyView::ErrorStatus(*c),
            ProviderReply::Body(b) => ProviderReplyView::Body(b@),
        }
    }
}

/// The first `budget` raw items, kept when both title and url are present;
/// a missing description becomes the empty string.
pub open spec fn spec_selected(items: Seq<RawSearchItemView>, budget: int) -> Seq<
    BraveSearchResultView,
>
    decreases items.len(),
{
    if items.len() == 0 || budget <= 0 {
        Seq::empty()
    } else {
        let rest = spec_selected(items.drop_first(), budget - 1);
        match (items[0].title, items[0].url) {
            (Some(t), Some(u)) => seq![
                BraveSearchResultView {
                    title: t,
                    url: u,
                    description: match items[0].description {
                        Some(d) => d,
                        None => Seq::empty(),
                    },
                },
            ] + rest,
            _ => rest,
        }
    }
}

/// Keeps the usable results among the first five raw items.
pub fn select_results(items: &Vec<RawSearchItem>) -> (r: Vec<BraveSearchResult>)
    ensures
        r.deep_view() == spec_selected(items.deep_view(), 5),
{
    let n: usize = if items.len() < 5 {
        items.len()
    } else {
        5
    };
    let mut r: Vec<BraveSearchResult> = Vec::new();
    proof {
        assert(items.deep_view().skip(0) =~= items.deep_view());
        assert(r.deep_view() =~= Seq::<BraveSearchResultView>::empty());
        assert(Seq::<BraveSearchResultView>::empty() + spec_selected(items.deep_view(), 5)
            =~= spec_selected(items.deep_view(), 5));
    }
    let mut i: usize = 0;
    while i < n
        invariant
            n <= items@.len(),
            n == if items@.len() < 5 {
                items@.len() as int
            } else {
                5int
            },
            i <= n,
            r.deep_view() + spec_selected(items.deep_view().skip(i as int), 5 - i)
                == spec_selected(items.deep_view(), 5),
        decreases n - i,
    {
        let ghost r0 = r.deep_view();
        let ghost rest = items.deep_view().skip(i as int);
        proof {
            assert(rest[0] == items.deep_view()[i as int]);
            assert(rest.drop_first() =~= items.deep_view().skip(i + 1));
        }
        let it = &items[i];
        match (&it.title, &it.url) {
            (Some(t), Some(u)) => {
                let d = match &it.description {
                    Some(d) => d.clone(),
                    None => String::new(),
                };
                r.push(BraveSearchResult { title: t.clone(), url: u.clone(), description: d });
                proof {
                    assert(r.deep_view() =~= r0.push(
                        spec_selected(rest, 5 - i).first(),
                    ));
                    assert(r.deep_view() + spec_selected(
                        items.deep_view().skip(i + 1),
                        5 - (i + 1),
                    ) =~= r0 + spec_selected(rest, 5 - i));
                }
            },
            _ => {
                proof {
                    assert(spec_selected(rest, 5 - i) == spec_selected(
                        items.deep_view().skip(i + 1),
                        5 - (i + 1),
                    ));
                }
            },
        }
        i = i + 1;
    }
    proof {
        assert(spec_selected(items.deep_view().skip(i as int), 5 - i) =~= Seq::<
            BraveSearchResultView,
        >::empty());
        assert(r.deep_view() + Seq::<BraveSearchResultView>::empty() =~= r.deep_view());
    }
    r
}

/// The search outcome for each provider reply: a transport failure or error
/// status becomes a failed response with its message; a body is parsed, its
/// usable results selected, and an unparseable body fails generically.
pub open spec fn spec_search_settle(reply: ProviderReplyView) -> BraveSearchResponseView {
    match reply {
        ProviderReplyView::TransportFailure(e) => BraveSearchResponseView {
            success: false,
            results: Seq::empty(),
            error: Some("Request failed: "@ + e),
        },
        ProviderReplyView::ErrorStatus(c) => BraveSearchResponseView {
            success: false,
            results: Seq::empty(),
            error: Some(spec_status_message(c)),
        },
        ProviderReplyView::Body(b) => match search_items_of(b) {
            Some(items) => BraveSearchResponseView {
                success: true,
                results: spec_selected(items, 5),
                error: None,
            },
            None => BraveSearchResponseView {
                success: false,
                results: Seq::empty(),
                error: Some("Unknown error"@),
            },
        },
    }
}

/// Settles one provider reply into the search outcome of
/// [`spec_search_settle`].
pub fn brave_search_settle(reply: &ProviderReply) -> (r: BraveSearchResponse)
    ensures
        r@ == spec_search_settle(reply@),
{
    match reply {
        ProviderReply::TransportFailure(e) => {
            let mut msg = String::from_str("Request failed: ");
            msg.append(e.as_str());
            let r = BraveSearchResponse { success: false, results: Vec::new(), error: Some(msg) };
            proof {
                assert(r@ =~= spec_search_settle(reply@));
            }
            r
        },
        ProviderReply::ErrorStatus(c) => {
            let r = BraveSearchResponse {
                success: false,
                results: Vec::new(),
                error: Some(status_message(*c)),
            };
            proof {
                assert(r@ =~= spec_search_settle(reply@));
            }
            r
        },
        ProviderReply::Body(b) => match parse_search_body(b.as_str()) {
            Some(items) => {
                let r = BraveSearchResponse {
                    success: true,
                    results: select_results(&items),
                    error: None,
                };
                proof {
                    assert(r@ =~= spec_search_settle(reply@));
                }
                r
            },
            None => {
                let r = BraveSearchResponse {
                    success: false,
                    results: Vec::new(),
                    error: Some(String::from_str("Unknown error")),
                };
                proof {
                    assert(r@ =~= spec_search_settle(reply@));
                }
                r
            },
        },
    }
}

/// One numbered block of the augmented prompt, for the result at (zero-based)
/// position `i`.
pub open spec fn spec_result_block(i: int, r: BraveSearchResultView) -> Seq<char> {
    dec_digits((i + 1) as nat) + ". **"@ + r.title + "**\n   URL: "@ + r.url + "\n   "@
        + r.description + "\n\n"@
}

/// The numbered blocks for the results at positions `i` onward.
pub open spec fn spec_blocks(results: Seq<BraveSearchResultView>, i: int) -> Seq<char>
    decreases results.len() - i,
{
    if i < 0 || i >= results.len() {
        Seq::empty()
    } else {
        spec_result_block(i, results[i]) + spec_blocks(results, i + 1)
    }
}

/// The augmented prompt: an explanation preamble, the numbered results, and a
/// closing instruction restating the original query.
pub open spec fn spec_augmented_text(query: Seq<char>, results: Seq<BraveSearchResultView>) -> Seq<
    char,
> {
    "I searched the web for your question. Here are the relevant results:\n\n"@ + spec_blocks(
        results,
        0,
    ) + "---\nBased on the above web search results, please answer the following question:\n\n"@
        + query
}

/// What the chat turn sends: the augmented prompt on a successful search with
/// at least one result, the original query unchanged otherwise.
pub open spec fn spec_augment_outcome(query: Seq<char>, resp: BraveSearchResponseView) -> Seq<
    char,
> {
    if resp.success && resp.results.len() > 0 {
        spec_augmented_text(query, resp.results)
    } else {
        query
    }
}

/// Builds the outbound prompt of [`spec_augment_outcome`] from the search
/// outcome.
pub fn augment_with_response(query: &str, resp: &BraveSearchResponse) -> (r: String)
    ensures
        r@ == spec_augment_outcome(query@, resp@),
{
    if !resp.success || resp.results.len() == 0 {
        return String::from_str(query);
    }
    let results = &resp.results;
    let mut text = String::from_str(
        "I searched the web for your question. Here are the relevant results:\n\n",
    );
    let ghost preamble = "I searched the web for your question. Here are the relevant results:\n\n"@;
    let n = results.len();
    let mut i: usize = 0;
    while i < n
        invariant
            n == results@.len(),
            i <= n,
            n <= u64::MAX,
            text@ == preamble + spec_blocks_prefix(results.deep_view(), i as int),
        decreases n - i,
    {
        let num = u64_to_dec(i as u64 + 1);
        text.append(num.as_str());
        text.append(". **");
        text.append(results[i].title.as_str());
        text.append("**\n   URL: ");
        text.append(results[i].url.as_str());
        text.append("\n   ");
        text.append(results[i].description.as_str());
        text.append("\n\n");
        proof {
            assert(results.deep_view()[i as int] == results@[i as int]@);
            lemma_blocks_prefix_snoc(results.deep_view(), i as int);
        }
        i = i + 1;
    }
    proof {
        lemma_blocks_prefix_all(results.deep_view(), 0);
    }
    text.append("---\nBased on the above web search results, please answer the following question:\n\n");
    text.append(query);
    text
}

/// The numbered blocks for the results before position `i`.
pub open spec fn spec_blocks_prefix(results: Seq<BraveSearchResultView>, i: int) -> Seq<char>
    decreases i,
{
    if i <= 0 || i > results.len() {
        Seq::empty()
    } else {
        spec_blocks_prefix(results, i - 1) + spec_result_block(i - 1, results[i - 1])
    }
}

proof fn lemma_blocks_prefix_snoc(results: Seq<BraveSearchResultView>, i: int)
    requires
        0 <= i < results.len(),
    ensures
        spec_blocks_prefix(results, i + 1) == spec_blocks_prefix(results, i) + spec_result_block(
            i,
            results[i],
        ),
{
}

proof fn lemma_blocks_prefix_all(results: Seq<BraveSearchResultView>, i: int)
    requires
        0 <= i <= results.len(),
    ensures
        spec_blocks_prefix(results, results.len() as int) == spec_blocks_prefix(results, i)
            + spec_blocks(results, i),
    decreases results.len() - i,
{
    if i == results.len() {
        assert(spec_blocks(results, i) =~= Seq::<char>::empty());
        assert(spec_blocks_prefix(results, i) + Seq::<char>::empty() =~= spec_blocks_prefix(
            results,
            i,
        ));
    } else {
        lemma_blocks_prefix_all(results, i + 1);
        lemma_blocks_prefix_snoc(results, i);
        assert((spec_blocks_prefix(results, i) + spec_result_block(i, results[i])) + spec_blocks(
            results,
            i + 1,
        ) =~= spec_blocks_prefix(results, i) + (spec_result_block(i, results[i]) + spec_blocks(
            results,
            i + 1,
        )));
    }
}

/// Augmentation never turns a failed or empty search into an error: the chat
/// turn falls back to the original query, unchanged.
pub proof fn lemma_failed_search_keeps_query(query: Seq<char>, resp: BraveSearchResponseView)
    requires
        !resp.success,
    ensures
        spec_augment_outcome(query, resp) == query,
{
}

/// A blank credential changes nothing: its rejection carries no results, so
/// the chat turn keeps the original query (and the plan never carries a
/// credential for the provider to be called with).
pub proof fn lemma_blank_credential_keeps_query(query: Seq<char>)
    ensures
        spec_augment_outcome(query, spec_token_missing_response()) == query,
{
}

} // verus!
