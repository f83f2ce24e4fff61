//! Value-level pieces of the Splunk HEC sink: endpoint URI construction
//! and the health-check error taxonomy.

use vstd::prelude::*;

use crate::trusted::{spec_uri_ok, uri_text_ok};

verus! {

/// Why a Splunk HEC health check failed.
#[derive(Clone, Copy, PartialEq, Eq, Structural, Debug)]
pub enum HealthcheckError {
    /// The endpoint answered 400: the configured token is not valid.
    InvalidToken,
    /// The endpoint answered 503: its queues are full.
    QueuesFull,
}

impl HealthcheckError {
    /// The human-readable description of this failure.
    pub fn message(&self) -> (r: String)
        ensures
            self is InvalidToken ==> r@ == "Invalid HEC token"@,
            self is QueuesFull ==> r@ == "Queues are full"@,
    {
        match self {
            HealthcheckError::InvalidToken => String::from_str("Invalid HEC token"),
            HealthcheckError::QueuesFull => String::from_str("Queues are full"),
        }
    }

    /// The health-check outcome for an endpoint's HTTP status code:
    /// 200 passes, 400 means the token is bad, 503 means full queues;
    /// any other status is unexpected and reported as such.
    pub fn from_status(status: u16) -> (r: Result<(), Option<HealthcheckError>>)
        ensures
            status == 200 <==> r is Ok,
            status == 400 ==> r == Err::<(), Option<HealthcheckError>>(
                Some(HealthcheckError::InvalidToken),
            ),
            status == 503 ==> r == Err::<(), Option<HealthcheckError>>(
                Some(HealthcheckError::QueuesFull),
            ),
            status != 200 && status != 400 && status != 503 ==> r == Err::<
                (),
                Option<HealthcheckError>,
            >(None),
    {
        if status == 200 {
            Ok(())
        } else if status == 400 {
            Err(Some(HealthcheckError::InvalidToken))
        } else if status == 503 {
            Err(Some(HealthcheckError::QueuesFull))
        } else {
            Err(None)
        }
    }
}

/// The characters of `s` with every trailing '/' removed.
pub open spec fn spec_trim_trailing_slashes(s: Seq<char>) -> Seq<char>
    decreases s.len(),
{
    if s.len() > 0 && s.last() == '/' {
        spec_trim_trailing_slashes(s.drop_last())
    } else {
        s
    }
}

/// Join an endpoint and a path into the URI text a request would use:
/// the endpoint's trailing slashes are dropped, then the path appended.
/// The result comes back only where it parses as a URI; the unparsable
/// text is the error.
pub fn build_uri(host: &str, path: &str) -> (r: Result<String, String>)
    ensures
        match r {
            Ok(uri) => uri@ == spec_trim_trailing_slashes(host@) + path@ && spec_uri_ok(uri@),
            Err(bad) => bad@ == spec_trim_trailing_slashes(host@) + path@ && !spec_uri_ok(bad@),
        },
{
    let end = trim_end_pos(host);
    let trimmed = host.substring_char(0, end);
    proof {
        assert(trimmed@ == host@.take(end as int));
    }
    let text = trimmed.to_owned().concat(path);
    if uri_text_ok(text.as_str()) {
        Ok(text)
    } else {
        Err(text)
    }
}

/// The length of `host` once every trailing '/' is dropped.
fn trim_end_pos(host: &str) -> (end: usize)
    ensures
        end <= host@.len(),
        spec_trim_trailing_slashes(host@) == host@.take(end as int),
{
    let n = host.unicode_len();
    let mut end: usize = n;
    proof {
        assert(host@.take(n as int) =~= host@);
    }
    while end > 0
        invariant
            end <= n,
            n == host@.len(),
            spec_trim_trailing_slashes(host@) == spec_trim_trailing_slashes(
                host@.take(end as int),
            ),
        decreases end,
    {
        proof {
            assert(host@.take(end as int).last() == host@[end - 1]);
            assert(host@.take(end as int).drop_last() =~= host@.take(end - 1));
        }
        if host.get_char(end - 1) == '/' {
            end = end - 1;
        } else {
            proof {
                assert(spec_trim_trailing_slashes(host@.take(end as int)) == host@.take(
                    end as int,
                ));
            }
            return end;
        }
    }
    proof {
        assert(host@.take(0) =~= Seq::<char>::empty());
    }
    0
}

/// The event key the host is recorded under.
pub fn host_key() -> (r: String)
    ensures
        r@ == "host"@,
{
    String::from_str("host")
}

} // verus!
