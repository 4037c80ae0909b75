//! The completion relay: turns the upstream token stream into an ordered
//! sequence of client events — text fragments, then one terminal sentinel.
//! A model id with the reserved "cloud:" prefix bypasses the upstream
//! entirely: a canned explanatory response is produced word by word, ending
//! with the same sentinel, so the client protocol is exercised unchanged.
use vstd::prelude::*;
use vstd::string::*;

use crate::text::{clip, spec_words, split_words, starts_with_seq, str_starts_with};
use crate::PromptRequest;

verus! {

/// One outbound event of a completion stream: a text fragment, the terminal
/// sentinel, or a diagnostic describing an upstream failure.
pub enum RelayEvent {
    Fragment(String),
    Sentinel,
    Diagnostic(String),
}

/// The mathematical value of a [`RelayEvent`].
#[verifier::ext_equal]
pub enum RelayEventView {
    Fragment(Seq<char>),
    Sentinel,
    Diagnostic(Seq<char>),
}

impl View for RelayEvent {
    type V = RelayEventView;

    open spec fn view(&self) -> RelayEventView {
        match self {
            RelayEvent::Fragment(t) => RelayEventView::Fragment(t@),
            RelayEvent::Sentinel => RelayEventView::Sentinel,
            RelayEvent::Diagnostic(t) => RelayEventView::Diagnostic(t@),
        }
    }
}

impl DeepView for RelayEvent {
    type V = RelayEventView;

    open spec fn deep_view(&self) -> RelayEventView {
        self.view()
    }
}

/// One parsed line of the upstream completion stream: an optional token of
/// response text and an optional end-of-stream flag.
pub struct GenEvent {
    pub response: Option<String>,
    pub done: Option<bool>,
}

/// The mathematical value of a [`GenEvent`].
#[verifier::ext_equal]
pub ghost struct GenEventView {
    pub response: Option<Seq<char>>,
    pub done: Option<bool>,
}

impl View for GenEvent {
    type V = GenEventView;

    open spec fn view(&self) -> GenEventView {
        GenEventView {
            response: match self.response {
                Some(t) => Some(t@),
                None => None,
            },
            done: self.done,
        }
    }
}

impl DeepView for GenEvent {
    type V = GenEventView;

    open spec fn deep_view(&self) -> GenEventView {
        self.view()
    }
}

/// The reserved token that marks the end of a completion stream on the wire,
/// distinct from every text fragment.
pub fn sentinel_token() -> (s: String)
    ensures
        s@ == "__END__"@,
{
    String::from_str("__END__")
}

/// The one diagnostic event the relay emits when the upstream request cannot
/// be opened at all.
pub fn upstream_unreachable_event() -> (e: RelayEvent)
    ensures
        e@ == RelayEventView::Diagnostic("[Error: Ollama not reachable]"@),
{
    RelayEvent::Diagnostic(String::from_str("[Error: Ollama not reachable]"))
}

/// Whether a model id names a remote/cloud variant: the reserved "cloud:"
/// prefix.
pub fn is_cloud_model(model: &str) -> (r: bool)
    ensures
        r == starts_with_seq(model@, "cloud:"@),
{
    str_starts_with(model, "cloud:")
}

/// The model id with the reserved cloud prefix removed (unchanged when the
/// prefix is absent).
pub open spec fn strip_cloud(model: Seq<char>) -> Seq<char> {
    if starts_with_seq(model, "cloud:"@) {
        model.skip("cloud:"@.len() as int)
    } else {
        model
    }
}

/// The canned explanatory response for a cloud-model request: it echoes the
/// first hundred characters of the prompt and names the cloud model.
pub open spec fn spec_canned_text(model: Seq<char>, prompt: Seq<char>) -> Seq<char> {
    "[Cloud Demo] You asked: \""@ + clip(prompt, 100) + "\"\n\nThis is a simulated response from cloud model '"@
        + strip_cloud(model)
        + "'. In a production environment, this would connect to the actual Ollama Cloud API to process your request using cloud-hosted models.\n\nTo use real cloud models, you'll need to:\n1. Sign up for Ollama Cloud at ollama.com\n2. Get your API credentials\n3. Configure the cloud endpoint in your settings"@
}

/// The event stream for a cloud-model request: each word of the canned text
/// as one fragment (with a trailing space), then the sentinel.
pub open spec fn spec_canned_events(model: Seq<char>, prompt: Seq<char>) -> Seq<RelayEventView> {
    spec_words(spec_canned_text(model, prompt)).map_values(
        |w: Seq<char>| RelayEventView::Fragment(w + " "@),
    ).push(RelayEventView::Sentinel)
}

/// Builds the canned cloud-model event stream of [`spec_canned_events`].
pub fn canned_cloud_events(model: &str, prompt: &str) -> (evs: Vec<RelayEvent>)
    ensures
        evs.deep_view() == spec_canned_events(model@, prompt@),
{
    let stripped: &str = if str_starts_with(model, "cloud:") {
        proof {
            reveal_strlit("cloud:");
        }
        let r = model.substring_char(6, model.unicode_len());
        proof {
            assert(r@ =~= strip_cloud(model@));
        }
        r
    } else {
        model
    };
    let mut text = String::from_str("[Cloud Demo] You asked: \"");
    text.append(crate::text::prefix_chars(prompt, 100));
    text.append("\"\n\nThis is a simulated response from cloud model '");
    text.append(stripped);
    text.append(
        "'. In a production environment, this would connect to the actual Ollama Cloud API to process your request using cloud-hosted models.\n\nTo use real cloud models, you'll need to:\n1. Sign up for Ollama Cloud at ollama.com\n2. Get your API credentials\n3. Configure the cloud endpoint in your settings",
    );
    proof {
        assert(text@ == spec_canned_text(model@, prompt@));
    }
    let words = split_words(text.as_str());
    let ghost all = spec_words(spec_canned_text(model@, prompt@)).map_values(
        |w: Seq<char>| RelayEventView::Fragment(w + " "@),
    );
    let mut evs: Vec<RelayEvent> = Vec::new();
    let n = words.len();
    let mut i: usize = 0;
    while i < n
        invariant
            n == words@.len(),
            i <= n,
            words.deep_view() == spec_words(spec_canned_text(model@, prompt@)),
            all == spec_words(spec_canned_text(model@, prompt@)).map_values(
                |w: Seq<char>| RelayEventView::Fragment(w + " "@),
            ),
            evs.deep_view() == all.take(i as int),
        decreases n - i,
    {
        let ghost evs0 = evs.deep_view();
        let mut w = words[i].clone();
        w.append(" ");
        proof {
            assert(w@ == words.deep_view()[i as int] + " "@);
        }
        evs.push(RelayEvent::Fragment(w));
        proof {
            assert(evs.deep_view() =~= evs0.push(RelayEventView::Fragment(w@)));
            assert(evs.deep_view() =~= all.take(i + 1));
        }
        i = i + 1;
    }
    evs.push(RelayEvent::Sentinel);
    proof {
        assert(all.take(n as int) =~= all);
        assert(evs.deep_view() =~= all.push(RelayEventView::Sentinel));
    }
    evs
}

/// The events one parsed completion-stream line stands for: its response
/// text as a fragment if present, then the sentinel if its done flag is true.
/// An unparseable line stands for no events.
pub open spec fn spec_line_events(ev: Option<GenEventView>) -> Seq<RelayEventView> {
    match ev {
        None => Seq::empty(),
        Some(e) => {
            let frags = match e.response {
                Some(t) => seq![RelayEventView::Fragment(t)],
                None => Seq::<RelayEventView>::empty(),
            };
            if e.done == Some(true) {
                frags.push(RelayEventView::Sentinel)
            } else {
                frags
            }
        },
    }
}

/// Whether a line ends the stream: its done flag is true.
pub open spec fn line_is_terminal(ev: Option<GenEventView>) -> bool {
    match ev {
        Some(e) => e.done == Some(true),
        None => false,
    }
}

/// The outbound events for one raw line of the completion stream.
pub fn relay_line(line: &str) -> (evs: Vec<RelayEvent>)
    ensures
        evs.deep_view() == spec_line_events(crate::parse::gen_event_of(line@)),
{
    let ghost target = spec_line_events(crate::parse::gen_event_of(line@));
    let mut evs: Vec<RelayEvent> = Vec::new();
    match crate::parse::parse_gen_line(line) {
        None => {},
        Some(e) => {
            let GenEvent { response, done } = e;
            match response {
                Some(t) => {
                    evs.push(RelayEvent::Fragment(t));
                },
                None => {},
            }
            let is_done = match done {
                Some(d) => d,
                None => false,
            };
            if is_done {
                evs.push(RelayEvent::Sentinel);
            }
        },
    }
    proof {
        assert(evs.deep_view() =~= target);
    }
    evs
}

/// The whole outbound event sequence for the lines of one completion stream:
/// the events of each line in order, stopping after the line whose done flag
/// ends the stream.
pub open spec fn spec_relay_stream(lines: Seq<Seq<char>>) -> Seq<RelayEventView>
    decreases lines.len(),
{
    if lines.len() == 0 {
        Seq::empty()
    } else {
        let e = crate::parse::gen_event_of(lines[0]);
        if line_is_terminal(e) {
            spec_line_events(e)
        } else {
            spec_line_events(e) + spec_relay_stream(lines.drop_first())
        }
    }
}

/// Republishes a whole completion stream, line by line, stopping at the
/// terminal line.
pub fn relay_stream(lines: &Vec<String>) -> (evs: Vec<RelayEvent>)
    ensures
        evs.deep_view() == spec_relay_stream(lines.deep_view()),
{
    let ghost target = spec_relay_stream(lines.deep_view());
    let mut evs: Vec<RelayEvent> = Vec::new();
    let n = lines.len();
    let mut i: usize = 0;
    proof {
        assert(lines.deep_view().skip(0) =~= lines.deep_view());
        assert(evs.deep_view() =~= Seq::<RelayEventView>::empty());
        assert(Seq::<RelayEventView>::empty() + target =~= target);
    }
    while i < n
        invariant
            n == lines@.len(),
            i <= n,
            target == spec_relay_stream(lines.deep_view()),
            evs.deep_view() + spec_relay_stream(lines.deep_view().skip(i as int)) == target,
        decreases n - i,
    {
        let ghost evs0 = evs.deep_view();
        let ghost rest = lines.deep_view().skip(i as int);
        proof {
            assert(rest[0] == lines.deep_view()[i as int]);
            assert(rest.drop_first() =~= lines.deep_view().skip(i + 1));
        }
        let line_events = relay_line(lines[i].as_str());
        let ghost e = crate::parse::gen_event_of(lines.deep_view()[i as int]);
        let mut terminal = false;
        let mut j: usize = 0;
        let m = line_events.len();
        while j < m
            invariant
                m == line_events@.len(),
                j <= m,
                evs.deep_view() == evs0 + line_events.deep_view().take(j as int),
                terminal == exists|k: int|
                    0 <= k < j && line_events.deep_view()[k] is Sentinel,
            decreases m - j,
        {
            let ghost evs1 = evs.deep_view();
            let ev = line_events[j].clone_event();
            if matches!(ev, RelayEvent::Sentinel) {
                terminal = true;
            }
            evs.push(ev);
            proof {
                assert(evs.deep_view() =~= evs1.push(line_events.deep_view()[j as int]));
                assert(evs.deep_view() =~= evs0 + line_events.deep_view().take(j + 1));
            }
            j = j + 1;
        }
        proof {
            assert(line_events.deep_view().take(m as int) =~= line_events.deep_view());
            assert(evs.deep_view() == evs0 + spec_line_events(e));
            if line_is_terminal(e) {
                assert(spec_line_events(e).last() is Sentinel);
                assert(terminal);
            } else {
                assert(forall|k: int|
                    0 <= k < spec_line_events(e).len() ==> !(#[trigger] spec_line_events(
                        e,
                    )[k] is Sentinel));
                assert(!terminal);
            }
        }
        if terminal {
            return evs;
        }
        i = i + 1;
    }
    proof {
        assert(spec_relay_stream(lines.deep_view().skip(i as int)) =~= Seq::<
            RelayEventView,
        >::empty());
        assert(evs.deep_view() + Seq::<RelayEventView>::empty() =~= evs.deep_view());
    }
    evs
}

impl RelayEvent {
    /// A copy of the event.
    pub fn clone_event(&self) -> (r: RelayEvent)
        ensures
            r@ == self@,
    {
        match self {
            RelayEvent::Fragment(t) => RelayEvent::Fragment(t.clone()),
            RelayEvent::Sentinel => RelayEvent::Sentinel,
            RelayEvent::Diagnostic(t) => RelayEvent::Diagnostic(t.clone()),
        }
    }
}

/// How one completion request is to be served: a canned event stream for a
/// cloud-model id, or a real upstream streaming request.
pub enum CompletionPlan {
    Canned(Vec<RelayEvent>),
    Upstream,
}

/// Decides how to serve a completion request: a reserved cloud-model id gets
/// the canned stream, anything else goes to the upstream daemon.
pub fn plan_completion(req: &PromptRequest) -> (p: CompletionPlan)
    ensures
        starts_with_seq(req.model@, "cloud:"@) ==> p is Canned && p->Canned_0.deep_view()
            == spec_canned_events(req.model@, req.prompt@),
        !starts_with_seq(req.model@, "cloud:"@) ==> p is Upstream,
{
    if is_cloud_model(req.model.as_str()) {
        CompletionPlan::Canned(canned_cloud_events(req.model.as_str(), req.prompt.as_str()))
    } else {
        CompletionPlan::Upstream
    }
}

} // verus!
