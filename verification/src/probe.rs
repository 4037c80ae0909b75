//! The liveness/catalog probe: what one attempt to read the upstream catalog
//! yields. A failed connection is not an error for callers — it is reported
//! as "not running, nothing installed". The installed catalog doubles as the
//! fallback source of truth for progress polls.
use vstd::prelude::*;
use vstd::string::*;

use crate::parse::{catalog_of, parse_catalog_body};

verus! {

/// The probe's answer: whether the daemon answered at all, and the installed
/// model names it reported.
pub struct StatusResponse {
    pub running: bool,
    pub models: Vec<String>,
}

/// The mathematical value of a [`StatusResponse`].
#[verifier::ext_equal]
pub ghost struct StatusResponseView {
    pub running: bool,
    pub models: Seq<Seq<char>>,
}

impl View for StatusResponse {
    type V = StatusResponseView;

    open spec fn view(&self) -> StatusResponseView {
        StatusResponseView { running: self.running, models: self.models.deep_view() }
    }
}

/// The names present in a parsed catalog: entries whose `name` field was a
/// string, in order.
pub open spec fn spec_names(items: Seq<Option<Seq<char>>>) -> Seq<Seq<char>>
    decreases items.len(),
{
    if items.len() == 0 {
        Seq::empty()
    } else {
        match items[0] {
            Some(n) => seq![n] + spec_names(items.drop_first()),
            None => spec_names(items.drop_first()),
        }
    }
}

/// The probe's answer for each transport outcome: no reply means "not
/// running, nothing installed"; a reply means "running", with the catalog
/// names when the body parses and an empty list when it does not.
pub open spec fn spec_status(reply: Option<Seq<char>>) -> StatusResponseView {
    match reply {
        None => StatusResponseView { running: false, models: Seq::empty() },
        Some(body) => match catalog_of(body) {
            Some(items) => StatusResponseView { running: true, models: spec_names(items) },
            None => StatusResponseView { running: true, models: Seq::empty() },
        },
    }
}

/// Settles one probe attempt into the status of [`spec_status`]. `reply` is
/// the catalog response body, or `None` when the connection failed.
pub fn get_ollama_status(reply: &Option<String>) -> (r: StatusResponse)
    ensures
        r@ == spec_status(match *reply {
            Some(ref b) => Some(b@),
            None => None,
        }),
{
    let body = match reply {
        Some(b) => b,
        None => {
            let r = StatusResponse { running: false, models: Vec::new() };
            proof {
                assert(r@ =~= spec_status(None));
            }
            return r;
        },
    };
    let items = match parse_catalog_body(body.as_str()) {
        Some(items) => items,
        None => {
            let r = StatusResponse { running: true, models: Vec::new() };
            proof {
                assert(r@ =~= spec_status(Some(body@)));
            }
            return r;
        },
    };
    let mut models: Vec<String> = Vec::new();
    let n = items.len();
    let mut i: usize = 0;
    proof {
        assert(items.deep_view().skip(0) =~= items.deep_view());
        assert(models.deep_view() =~= Seq::<Seq<char>>::empty());
        assert(Seq::<Seq<char>>::empty() + spec_names(items.deep_view()) =~= spec_names(
            items.deep_view(),
        ));
    }
    while i < n
        invariant
            n == items@.len(),
            i <= n,
            models.deep_view() + spec_names(items.deep_view().skip(i as int)) == spec_names(
                items.deep_view(),
            ),
        decreases n - i,
    {
        let ghost m0 = models.deep_view();
        let ghost rest = items.deep_view().skip(i as int);
        proof {
            assert(rest[0] == items.deep_view()[i as int]);
            assert(rest.drop_first() =~= items.deep_view().skip(i + 1));
        }
        match &items[i] {
            Some(name) => {
                models.push(name.clone());
                proof {
                    assert(models.deep_view() =~= m0.push(name@));
                    assert(m0.push(name@) + spec_names(items.deep_view().skip(i + 1)) =~= m0 + (
                    seq![name@] + spec_names(items.deep_view().skip(i + 1))));
                }
            },
            None => {},
        }
        i = i + 1;
    }
    proof {
        assert(spec_names(items.deep_view().skip(i as int)) =~= Seq::<Seq<char>>::empty());
        assert(models.deep_view() + Seq::<Seq<char>>::empty() =~= models.deep_view());
    }
    let r = StatusResponse { running: true, models };
    proof {
        assert(r@ =~= spec_status(Some(body@)));
    }
    r
}

} // verus!
