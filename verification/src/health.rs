//! Endpoint health results and the ordinary-mode pre-load gate.

use vstd::prelude::*;

verus! {

/// One probed endpoint. An unreachable endpoint has no latency and no status
/// code; a reachable one has both.
#[derive(Debug)]
pub struct EndpointHealth {
    pub url: String,
    pub reachable: bool,
    pub latency_ms: Option<u64>,
    pub status_code: Option<u16>,
}

impl EndpointHealth {
    /// The result reported for an endpoint the probe could not reach.
    pub fn unreachable(url: String) -> (r: EndpointHealth)
        ensures
            r.url@ == url@,
            !r.reachable,
            r.latency_ms is None,
            r.status_code is None,
    {
        EndpointHealth { url, reachable: false, latency_ms: None, status_code: None }
    }

    /// The result reported for an endpoint that answered.
    pub fn reachable(url: String, latency_ms: u64, status_code: u16) -> (r: EndpointHealth)
        ensures
            r.url@ == url@,
            r.reachable,
            r.latency_ms == Some(latency_ms),
            r.status_code == Some(status_code),
    {
        EndpointHealth {
            url,
            reachable: true,
            latency_ms: Some(latency_ms),
            status_code: Some(status_code),
        }
    }
}

/// Whether every probed endpoint was reachable.
pub open spec fn spec_all_reachable(hs: Seq<EndpointHealth>) -> bool {
    forall|i: int| 0 <= i < hs.len() ==> hs[i].reachable
}

/// Successful pre-load output: the health results and the (always true on
/// success) aggregate flag.
#[derive(Debug)]
pub struct PreLoadOutcome {
    pub results: Vec<EndpointHealth>,
    pub all_healthy: bool,
}

/// A failed pre-load: the urls of the endpoints that could not be reached,
/// in probe order.
#[derive(Debug)]
pub struct PreLoadError {
    pub failed_urls: Vec<String>,
}

/// Texts joined with a comma and a space between each pair.
pub open spec fn comma_join(items: Seq<Seq<char>>) -> Seq<char>
    decreases items.len(),
{
    if items.len() == 0 {
        Seq::empty()
    } else if items.len() == 1 {
        items[0]
    } else {
        comma_join(items.drop_last()) + ", "@ + items.last()
    }
}

impl PreLoadError {
    /// The failure message: a fixed header followed by the unreachable urls,
    /// comma-separated, in probe order.
    pub fn message(&self) -> (r: String)
        ensures
            r@ == "health check failed for endpoints: "@ + comma_join(
                self.failed_urls.deep_view(),
            ),
    {
        let mut msg = "health check failed for endpoints: ".to_owned();
        let ghost base = msg@;
        let ghost urls = self.failed_urls.deep_view();
        proof {
            assert(urls.len() == self.failed_urls@.len());
            assert(comma_join(urls.take(0)) =~= Seq::<char>::empty());
            assert(msg@ =~= base + comma_join(urls.take(0)));
        }
        let mut i: usize = 0;
        while i < self.failed_urls.len()
            invariant
                0 <= i <= self.failed_urls@.len(),
                urls == self.failed_urls.deep_view(),
                urls.len() == self.failed_urls@.len(),
                base == "health check failed for endpoints: "@,
                msg@ == base + comma_join(urls.take(i as int)),
            decreases self.failed_urls@.len() - i,
        {
            if i > 0 {
                msg.append(", ");
            }
            msg.append(self.failed_urls[i].as_str());
            proof {
                assert(urls.take(i + 1).drop_last() =~~= urls.take(i as int));
                assert(urls.take(i + 1).last() == self.failed_urls@[i as int]@);
                if i == 0 {
                    assert(comma_join(urls.take(1)) == urls[0]);
                    assert(msg@ =~= base + comma_join(urls.take(1)));
                } else {
                    assert(comma_join(urls.take(i + 1)) == comma_join(urls.take(i as int)) + ", "@
                        + urls[i as int]);
                    assert(msg@ =~= base + comma_join(urls.take(i + 1)));
                }
            }
            i += 1;
        }
        proof {
            assert(urls.take(urls.len() as int) =~~= urls);
        }
        msg
    }
}

/// The urls of the unreachable results, in order.
pub open spec fn spec_failed_urls(hs: Seq<EndpointHealth>) -> Seq<Seq<char>>
    decreases hs.len(),
{
    if hs.len() == 0 {
        Seq::empty()
    } else if hs[0].reachable {
        spec_failed_urls(hs.drop_first())
    } else {
        seq![hs[0].url@] + spec_failed_urls(hs.drop_first())
    }
}

proof fn lemma_failed_urls_push(hs: Seq<EndpointHealth>, h: EndpointHealth)
    ensures
        spec_failed_urls(hs.push(h)) == if h.reachable {
            spec_failed_urls(hs)
        } else {
            spec_failed_urls(hs) + seq![h.url@]
        },
    decreases hs.len(),
{
    if hs.len() == 0 {
        assert(hs.push(h)[0] == h);
        assert(hs.push(h).drop_first() =~= Seq::<EndpointHealth>::empty());
        assert(spec_failed_urls(Seq::<EndpointHealth>::empty()) == Seq::<Seq<char>>::empty());
        if h.reachable {
            assert(spec_failed_urls(hs.push(h)) =~~= spec_failed_urls(hs));
        } else {
            assert(spec_failed_urls(hs.push(h)) =~~= spec_failed_urls(hs) + seq![h.url@]);
        }
    } else {
        assert(hs.push(h)[0] == hs[0]);
        assert(hs.push(h).drop_first() =~= hs.drop_first().push(h));
        lemma_failed_urls_push(hs.drop_first(), h);
        if h.reachable {
            assert(spec_failed_urls(hs.push(h)) =~~= spec_failed_urls(hs));
        } else {
            assert(spec_failed_urls(hs.push(h)) =~~= spec_failed_urls(hs) + seq![h.url@]);
        }
    }
}

proof fn lemma_failed_urls_empty_iff(hs: Seq<EndpointHealth>)
    ensures
        (spec_failed_urls(hs).len() == 0) == spec_all_reachable(hs),
    decreases hs.len(),
{
    if hs.len() == 0 {
    } else {
        lemma_failed_urls_empty_iff(hs.drop_first());
        assert(forall|i: int| 0 < i < hs.len() ==> hs.drop_first()[i - 1] == hs[i]);
        if hs[0].reachable && spec_all_reachable(hs.drop_first()) {
            assert(spec_all_reachable(hs));
        }
    }
}

/// The ordinary-mode pre-load gate over probe results: the stage succeeds
/// exactly when every probed endpoint was reachable — in particular an empty
/// endpoint list succeeds trivially — and otherwise hard-fails carrying the
/// unreachable urls.
pub fn preload_gate(results: Vec<EndpointHealth>) -> (r: Result<PreLoadOutcome, PreLoadError>)
    ensures
        (r is Ok) == spec_all_reachable(results@),
        r matches Ok(o) ==> o.all_healthy && o.results@ == results@,
        r matches Err(e) ==> e.failed_urls.deep_view() == spec_failed_urls(results@),
{
    let mut failed: Vec<String> = Vec::new();
    let mut i: usize = 0;
    while i < results.len()
        invariant
            0 <= i <= results@.len(),
            failed.deep_view() == spec_failed_urls(results@.subrange(0, i as int)),
        decreases results@.len() - i,
    {
        let ghost pre = results@.subrange(0, i as int);
        if !results[i].reachable {
            failed.push(results[i].url.clone());
        }
        proof {
            assert(results@.subrange(0, i + 1) =~= pre.push(results@[i as int]));
            lemma_failed_urls_push(pre, results@[i as int]);
            assert(failed.deep_view() =~~= spec_failed_urls(results@.subrange(0, i + 1)));
        }
        i += 1;
    }
    proof {
        assert(results@.subrange(0, results@.len() as int) =~= results@);
        lemma_failed_urls_empty_iff(results@);
        assert(failed.deep_view().len() == failed@.len());
    }
    if failed.len() == 0 {
        Ok(PreLoadOutcome { results, all_healthy: true })
    } else {
        Err(PreLoadError { failed_urls: failed })
    }
}

/// What the endpoint urls of a serialized endpoint-configuration document
/// are, when it parses; the exact value is fixed by the configuration format.
pub uninterp spec fn config_urls_of(s: Seq<char>) -> Option<Seq<Seq<char>>>;

/// Relies on `toml::from_str` and `toml::Value` navigation: the `url` field
/// of each entry of the document's `endpoints` array, when the document and
/// every entry parse that way.
#[verifier::external_body]
fn parse_config_endpoint_urls(s: &str) -> (r: Option<Vec<String>>)
    ensures
        (r is Some) == (config_urls_of(s@) is Some),
        r matches Some(v) ==> config_urls_of(s@) == Some(v.deep_view()),
{
    let value: toml::Value = match toml::from_str(s) {
        Ok(v) => v,
        Err(_) => return None,
    };
    let entries = value.get("endpoints")?.as_array()?;
    let mut urls: Vec<String> = Vec::new();
    for entry in entries {
        urls.push(entry.get("url")?.as_str()?.to_string());
    }
    Some(urls)
}

/// Collect the candidate endpoint urls for pre-load: those of the packaging
/// output's endpoint-configuration document (ignored wholesale when it does
/// not parse), followed by the urls given explicitly in the event metadata.
pub fn collect_endpoint_urls(config_toml: Option<&str>, explicit: &Vec<String>) -> (r: Vec<String>)
    ensures
        r.deep_view() == (match config_toml {
            Some(c) => match config_urls_of(c@) {
                Some(us) => us,
                None => Seq::<Seq<char>>::empty(),
            },
            None => Seq::<Seq<char>>::empty(),
        }) + explicit.deep_view(),
{
    let mut urls: Vec<String> = match config_toml {
        Some(c) => match parse_config_endpoint_urls(c) {
            Some(v) => v,
            None => Vec::new(),
        },
        None => Vec::new(),
    };
    let ghost from_config = urls.deep_view();
    let mut i: usize = 0;
    while i < explicit.len()
        invariant
            0 <= i <= explicit@.len(),
            urls.deep_view() == from_config + explicit.deep_view().subrange(0, i as int),
        decreases explicit@.len() - i,
    {
        let ghost prev = urls@;
        let ghost prev_dv = urls.deep_view();
        let x = explicit[i].clone();
        urls.push(x);
        proof {
            assert(urls@ == prev.push(x));
            assert(prev_dv.len() == prev.len());
            assert(prev.len() == from_config.len() + i);
            assert(urls.deep_view().len() == prev.len() + 1);
            assert forall|k: int| 0 <= k < urls.deep_view().len() implies urls.deep_view()[k] == (
            from_config + explicit.deep_view().subrange(0, i + 1))[k] by {
                if k < prev.len() {
                    assert(urls@[k] == prev[k]);
                    assert(prev_dv[k] == prev[k].deep_view());
                } else {
                    assert(urls@[k] == x);
                }
            }
            assert(urls.deep_view() =~~= from_config + explicit.deep_view().subrange(0, i + 1));
        }
        i += 1;
    }
    proof {
        assert(explicit.deep_view().len() == explicit@.len());
        assert(explicit.deep_view().subrange(0, explicit.deep_view().len() as int)
            =~~= explicit.deep_view());
    }
    urls
}

} // verus!
