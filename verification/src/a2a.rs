//! Delivery of A2A task replies: the endpoint, its headers, and the clocks of running tasks.
use std::time::Duration;

use reqwest::header::{HeaderMap, HeaderValue, InvalidHeaderValue};
use vstd::prelude::*;
use vstd::utf8::encode_utf8;

use crate::clock::{clock_shows, nanos_of, started, whole_secs, TaskStarts, MAX_NANOS};
use crate::headers::{
    header_fields, header_text, header_value, insert_header, new_header_map, static_header_value,
};
use crate::text::{decimal, decimal_digits, trim_end_slashes, without_trailing_slashes};

verus! {

/// How long a single request to the service may take.
pub const REQUEST_TIMEOUT_SECS: u64 = 30;

/// How often progress is reported, in minutes where the seconds make whole minutes.
pub open spec fn cadence(seconds: nat) -> Seq<char> {
    if seconds > 0 && seconds % 60 == 0 {
        decimal_digits(seconds / 60) + " "@ + if seconds == 60 {
            "minute"@
        } else {
            "minutes"@
        }
    } else {
        decimal_digits(seconds) + " "@ + if seconds == 1 {
            "second"@
        } else {
            "seconds"@
        }
    }
}

/// Words for an interval: minutes where it is a whole number of them, seconds otherwise.
pub fn cadence_text(seconds: u64) -> (text: String)
    ensures
        text@ == cadence(seconds as nat),
{
    if seconds > 0 && seconds % 60 == 0 {
        let minutes: u64 = seconds / 60;
        let unit = if minutes == 1 {
            "minute"
        } else {
            "minutes"
        };
        decimal(minutes).concat(" ").concat(unit)
    } else {
        let unit = if seconds == 1 {
            "second"
        } else {
            "seconds"
        };
        decimal(seconds).concat(" ").concat(unit)
    }
}

/// Why a delivery cannot be set up.
pub enum DeliveryError {
    /// The API key cannot stand in a header.
    InvalidApiKey(InvalidHeaderValue),
}

impl DeliveryError {
    /// The words of the error.
    pub open spec fn words(self) -> Seq<char> {
        match self {
            DeliveryError::InvalidApiKey(_) => "invalid Inkbox API key bytes"@,
        }
    }

    /// The words of the error.
    pub fn message(&self) -> (text: String)
        ensures
            text@ == self.words(),
    {
        match self {
            DeliveryError::InvalidApiKey(_) => "invalid Inkbox API key bytes".to_owned(),
        }
    }
}

/// The words of the error where delivery cannot be set up with an API key.
pub open spec fn delivery_failure(api_key: Seq<char>) -> Option<Seq<char>> {
    if header_text(api_key) {
        None
    } else {
        Some("invalid Inkbox API key bytes"@)
    }
}

/// The header fields that go with every request.
pub open spec fn request_headers_for(api_key: Seq<char>) -> Map<Seq<char>, Seq<Seq<u8>>> {
    map![
        "x-api-key"@ => seq![encode_utf8(api_key)],
        "accept"@ => seq![encode_utf8("application/json"@)],
        "user-agent"@ => seq![encode_utf8("zeroclaw-inkbox-channel"@)],
    ]
}

/// The endpoint that replies go to, and the tasks that are running.
pub struct A2aDelivery {
    /// Where the service listens, without a slash at the end.
    pub base_url: String,
    /// The identity that tasks come in for.
    pub identity: String,
    /// Seconds between progress updates; none are promised where this is zero.
    pub progress_interval_secs: u64,
    /// The header fields that go with every request.
    pub headers: HeaderMap<HeaderValue>,
    /// When the running tasks started.
    pub task_starts: TaskStarts,
}

/// The acknowledgement of a task.
pub open spec fn acknowledgement_text(task_id: Seq<char>, interval: nat) -> Seq<char> {
    if interval == 0 {
        "Task "@ + task_id + " received. Work is queued and starting."@
    } else {
        "Task "@ + task_id
            + " received. Work is queued and starting. Expect progress updates about every "@
            + cadence(interval) + "."@
    }
}

/// The URL of a task.
pub open spec fn task_url_text(base_url: Seq<char>, identity: Seq<char>, task_id: Seq<char>) -> Seq<
    char,
> {
    base_url + "/api/v1/identities/"@ + identity + "/a2a/tasks/"@ + task_id
}

impl A2aDelivery {
    /// Sets up delivery for an identity with the service's credentials.
    pub fn new(
        api_key: &str,
        base_url: &str,
        identity: String,
        progress_interval_secs: u64,
    ) -> (delivery: Result<A2aDelivery, DeliveryError>)
        ensures
            match delivery {
                Ok(d) => {
                    &&& header_text(api_key@)
                    &&& d.base_url@ == without_trailing_slashes(base_url@)
                    &&& d.identity@ == identity@
                    &&& d.progress_interval_secs == progress_interval_secs
                    &&& header_fields(d.headers) == request_headers_for(api_key@)
                    &&& d.task_starts@ == Map::<Seq<char>, u128>::empty()
                },
                Err(error) => {
                    &&& !header_text(api_key@)
                    &&& delivery_failure(api_key@) == Some(error.words())
                },
            },
    {
        proof {
            reveal_strlit("x-api-key");
            reveal_strlit("accept");
            reveal_strlit("user-agent");
            reveal_strlit("application/json");
            reveal_strlit("zeroclaw-inkbox-channel");
        }
        let mut headers = new_header_map();
        let key = match header_value(api_key) {
            Ok(key) => key,
            Err(error) => {
                return Err(DeliveryError::InvalidApiKey(error));
            },
        };
        insert_header(&mut headers, "x-api-key", key);
        insert_header(&mut headers, "accept", static_header_value("application/json"));
        insert_header(&mut headers, "user-agent", static_header_value("zeroclaw-inkbox-channel"));
        assert(header_fields(headers) =~= request_headers_for(api_key@));
        Ok(
            A2aDelivery {
                base_url: trim_end_slashes(base_url),
                identity,
                progress_interval_secs,
                headers,
                task_starts: TaskStarts::new(),
            },
        )
    }

    /// Seconds between progress updates.
    pub fn progress_interval_secs(&self) -> (secs: u64)
        ensures
            secs == self.progress_interval_secs,
    {
        self.progress_interval_secs
    }

    /// The words with which a task is acknowledged. They name the cadence of progress updates
    /// unless there are none.
    pub fn acknowledgement(&self, task_id: &str) -> (text: String)
        ensures
            text@ == acknowledgement_text(task_id@, self.progress_interval_secs as nat),
    {
        let mut text = "Task ".to_owned();
        text.append(task_id);
        if self.progress_interval_secs == 0 {
            text.append(" received. Work is queued and starting.");
        } else {
            text.append(
                " received. Work is queued and starting. Expect progress updates about every ",
            );
            text.append(cadence_text(self.progress_interval_secs).as_str());
            text.append(".");
        }
        text
    }

    /// The whole seconds that a task has been running by now. A task that is not running starts
    /// now.
    pub fn elapsed_secs(&mut self, task_id: &str) -> (secs: u64)
        ensures
            exists|elapsed: Duration|
                {
                    let starts = old(self).task_starts@;
                    let now = nanos_of(elapsed);
                    &&& #[trigger] clock_shows(old(self).task_starts.origin(), elapsed)
                    &&& now <= MAX_NANOS
                    &&& final(self).task_starts@ == started(starts, task_id@, now)
                    &&& secs == whole_secs(started(starts, task_id@, now)[task_id@], now)
                },
            final(self).task_starts.origin() == old(self).task_starts.origin(),
            final(self).same_endpoint(*old(self)),
    {
        self.task_starts.elapsed_secs(task_id)
    }

    /// Forgets the start of a task.
    pub fn stop(&mut self, task_id: &str)
        ensures
            final(self).task_starts@ == old(self).task_starts@.remove(task_id@),
            final(self).task_starts.origin() == old(self).task_starts.origin(),
            final(self).same_endpoint(*old(self)),
    {
        self.task_starts.stop(task_id);
    }

    /// The URL of a task.
    pub fn task_url(&self, task_id: &str) -> (url: String)
        ensures
            url@ == task_url_text(self.base_url@, self.identity@, task_id@),
    {
        let mut url = self.base_url.clone();
        url.append("/api/v1/identities/");
        url.append(self.identity.as_str());
        url.append("/a2a/tasks/");
        url.append(task_id);
        url
    }

    /// The URL that a reply to a task is posted to.
    pub fn reply_url(&self, task_id: &str) -> (url: String)
        ensures
            url@ == task_url_text(self.base_url@, self.identity@, task_id@) + "/reply"@,
    {
        self.task_url(task_id).concat("/reply")
    }

    /// Nothing but the clocks differs.
    pub open spec fn same_endpoint(self, other: A2aDelivery) -> bool {
        &&& self.base_url == other.base_url
        &&& self.identity == other.identity
        &&& self.progress_interval_secs == other.progress_interval_secs
        &&& self.headers == other.headers
    }
}

/// The API key does not show in the error: every key that is refused is refused with the same
/// words.
pub proof fn law_key_stays_out_of_error_text(a: Seq<char>, b: Seq<char>)
    requires
        !header_text(a),
        !header_text(b),
    ensures
        delivery_failure(a) is Some,
        delivery_failure(a) == delivery_failure(b),
{
}

/// An interval of whole minutes is told in minutes, with a plural but for one.
pub proof fn law_whole_minutes_are_told_in_minutes(minutes: nat)
    requires
        minutes > 0,
    ensures
        cadence(60 * minutes) == decimal_digits(minutes) + if minutes == 1 {
            " minute"@
        } else {
            " minutes"@
        },
{
    reveal_strlit(" ");
    reveal_strlit("minute");
    reveal_strlit("minutes");
    reveal_strlit(" minute");
    reveal_strlit(" minutes");
    assert((60 * minutes) / 60 == minutes && (60 * minutes) % 60 == 0);
    assert(" "@ + "minute"@ =~= " minute"@);
    assert(" "@ + "minutes"@ =~= " minutes"@);
    assert(cadence(60 * minutes) =~= decimal_digits(minutes) + if minutes == 1 {
        " minute"@
    } else {
        " minutes"@
    });
}

/// An interval that is no number of whole minutes is told in seconds, with a plural but for one.
pub proof fn law_other_intervals_are_told_in_seconds(minutes: nat, seconds: nat)
    requires
        seconds < 60,
        minutes == 0 || seconds > 0,
    ensures
        cadence(60 * minutes + seconds) == decimal_digits(60 * minutes + seconds) + if 60 * minutes
            + seconds == 1 {
            " second"@
        } else {
            " seconds"@
        },
{
    reveal_strlit(" ");
    reveal_strlit("second");
    reveal_strlit("seconds");
    reveal_strlit(" second");
    reveal_strlit(" seconds");
    assert(" "@ + "second"@ =~= " second"@);
    assert(" "@ + "seconds"@ =~= " seconds"@);
    let n = 60 * minutes + seconds;
    assert(n % 60 == seconds);
    assert(cadence(n) =~= decimal_digits(n) + if n == 1 {
        " second"@
    } else {
        " seconds"@
    });
}

/// Every acknowledgement names its task and says that work starts. It says nothing more where no
/// progress is promised, and otherwise goes on to name the cadence.
pub proof fn law_acknowledgement_names_task_and_cadence(task_id: Seq<char>, interval: nat)
    ensures
        acknowledgement_text(task_id, 0) == "Task "@ + task_id
            + " received. Work is queued and starting."@,
        interval > 0 ==> acknowledgement_text(task_id, interval) == acknowledgement_text(task_id, 0)
            + " Expect progress updates about every "@ + cadence(interval) + "."@,
{
    reveal_strlit(" received. Work is queued and starting.");
    reveal_strlit(" Expect progress updates about every ");
    reveal_strlit(" received. Work is queued and starting. Expect progress updates about every ");
    assert(" received. Work is queued and starting."@ + " Expect progress updates about every "@
        =~= " received. Work is queued and starting. Expect progress updates about every "@);
    if interval > 0 {
        assert(acknowledgement_text(task_id, interval) =~= acknowledgement_text(task_id, 0)
            + " Expect progress updates about every "@ + cadence(interval) + "."@);
    }
}

/// The URL of a task starts with the base URL and ends with the task's id, both as they are, and
/// names the identity in between.
pub proof fn law_task_url_by_pieces(base_url: Seq<char>, identity: Seq<char>, task_id: Seq<char>)
    ensures
        ({
            let url = task_url_text(base_url, identity, task_id);
            let path = task_url_text(Seq::empty(), identity, Seq::empty());
            &&& url == base_url + path + task_id
            &&& path == "/api/v1/identities/"@ + identity + "/a2a/tasks/"@
        }),
{
    let path = task_url_text(Seq::empty(), identity, Seq::empty());
    assert(path =~= "/api/v1/identities/"@ + identity + "/a2a/tasks/"@);
    assert(task_url_text(base_url, identity, task_id) =~= base_url + path + task_id);
}

/// Every request carries the API key as it is, asks for JSON and names the channel, and carries no
/// other field of its own.
pub proof fn law_requests_carry_the_key(api_key: Seq<char>, name: Seq<char>)
    ensures
        request_headers_for(api_key).contains_key(name) <==> name == "x-api-key"@ || name
            == "accept"@ || name == "user-agent"@,
        request_headers_for(api_key)["x-api-key"@] == seq![encode_utf8(api_key)],
        request_headers_for(api_key)["accept"@] == seq![encode_utf8("application/json"@)],
        request_headers_for(api_key)["user-agent"@] == seq![
            encode_utf8("zeroclaw-inkbox-channel"@),
        ],
{
    reveal_strlit("x-api-key");
    reveal_strlit("accept");
    reveal_strlit("user-agent");
    assert("x-api-key"@.len() == 9 && "accept"@.len() == 6 && "user-agent"@.len() == 10);
}

/// A key is refused exactly where it cannot stand in a header, with words that say so.
pub proof fn law_refused_key_is_told(api_key: Seq<char>)
    ensures
        header_text(api_key) ==> delivery_failure(api_key) is None,
        !header_text(api_key) ==> delivery_failure(api_key) == Some(
            "invalid Inkbox API key bytes"@,
        ),
{
}

} // verus!
