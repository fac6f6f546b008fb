//! The benchmark of an object store: which call a worker makes next, and
//! what the answer of the store comes to.

use crate::counters::Outcome;
use crate::metrics::RequestStats;
use crate::mini_client::CallResult;
use crate::mini_client_wrapper::GCSClientAPI;
use crate::text::{decimal_of, decimal_text};
use rand::{thread_rng, Rng};
use std::time::Duration;
use vstd::prelude::*;

verus! {

/// What the benchmark has the store do.
#[derive(Clone, Copy, Debug, PartialEq, Eq, Structural)]
pub enum GcsBenchScenario {
    ReadObject,
    QueryWriteStatus,
    ResumableWriteObject,
    NonresumableWriteObject,
}

/// The transport that `name` stands for, where it stands for one.
pub open spec fn client_api_of(name: Seq<char>) -> Option<GCSClientAPI> {
    if name == "json"@ {
        Some(GCSClientAPI::Json)
    } else if name == "grpc-no-directpath"@ {
        Some(GCSClientAPI::GrpcNoDirectpath)
    } else if name == "grpc-directpath"@ {
        Some(GCSClientAPI::GrpcDirectpath)
    } else {
        None
    }
}

/// Whether two texts are the same.
fn same_text(a: &str, b: &str) -> (same: bool)
    ensures
        same == (a@ == b@),
{
    a.to_owned() == b.to_owned()
}

/// The transport that `name` stands for; none for a name that stands for
/// no transport.
pub fn parse_client_api(name: &str) -> (api: Option<GCSClientAPI>)
    ensures
        api == client_api_of(name@),
{
    if same_text(name, "json") {
        Some(GCSClientAPI::Json)
    } else if same_text(name, "grpc-no-directpath") {
        Some(GCSClientAPI::GrpcNoDirectpath)
    } else if same_text(name, "grpc-directpath") {
        Some(GCSClientAPI::GrpcDirectpath)
    } else {
        None
    }
}

/// The transport that `name` stands for.
pub fn map_client_api(name: &str) -> (api: GCSClientAPI)
    requires
        client_api_of(name@) is Some,
    ensures
        Some(api) == client_api_of(name@),
{
    if same_text(name, "json") {
        GCSClientAPI::Json
    } else if same_text(name, "grpc-no-directpath") {
        GCSClientAPI::GrpcNoDirectpath
    } else {
        GCSClientAPI::GrpcDirectpath
    }
}

/// Upper end of the numbers that are put behind the name of an object that
/// is written, so that the objects of one run differ.
pub const SUFFIX_LIMIT: u64 = 1_000_000;

/// `thread_rng().gen_range(low..high)` of the `rand` crate: a number from
/// `low` up to, but without, `high`. Which one is left to chance.
#[verifier::external_body]
fn random_between(low: u64, high: u64) -> (n: u64)
    requires
        low < high,
    ensures
        low <= n < high,
{
    thread_rng().gen_range(low..high)
}

/// One call of the storage client.
#[derive(Debug)]
pub enum GcsCall {
    ReadObject { bucket: String, object: String },
    RangeRead { bucket: String, object: String, start: u64, length: u64 },
    QueryWriteStatus { upload_id: String },
    WriteObject { bucket: String, object: String, size: u64, resumable: bool },
    StartResumableWrite { bucket: String, object: String },
}

/// One call of the storage client, as the contracts see it.
pub enum Call {
    ReadObject { bucket: Seq<char>, object: Seq<char> },
    RangeRead { bucket: Seq<char>, object: Seq<char>, start: u64, length: u64 },
    QueryWriteStatus { upload_id: Seq<char> },
    WriteObject { bucket: Seq<char>, object: Seq<char>, size: u64, resumable: bool },
    StartResumableWrite { bucket: Seq<char>, object: Seq<char> },
}

impl View for GcsCall {
    type V = Call;

    open spec fn view(&self) -> Call {
        match self {
            GcsCall::ReadObject { bucket, object } => Call::ReadObject {
                bucket: bucket@,
                object: object@,
            },
            GcsCall::RangeRead { bucket, object, start, length } => Call::RangeRead {
                bucket: bucket@,
                object: object@,
                start: *start,
                length: *length,
            },
            GcsCall::QueryWriteStatus { upload_id } => Call::QueryWriteStatus {
                upload_id: upload_id@,
            },
            GcsCall::WriteObject { bucket, object, size, resumable } => Call::WriteObject {
                bucket: bucket@,
                object: object@,
                size: *size,
                resumable: *resumable,
            },
            GcsCall::StartResumableWrite { bucket, object } => Call::StartResumableWrite {
                bucket: bucket@,
                object: object@,
            },
        }
    }
}

/// What chance decides of one call.
#[derive(Clone, Copy, Debug, PartialEq, Eq, Structural)]
pub struct Picks {
    /// Place of the object among the objects of the benchmark.
    pub object: usize,
    /// Number behind the name of an object that is written.
    pub suffix: u64,
    /// Offset at which a read of a range begins.
    pub start: u64,
    /// Length of a read of a range.
    pub length: u64,
}

/// The settings of a benchmark of an object store.
pub struct Settings {
    pub gcp_project: Seq<char>,
    pub api: Seq<char>,
    pub bucket: Seq<char>,
    pub objects: Seq<Seq<char>>,
    pub object_size: u64,
    pub scenario: GcsBenchScenario,
    pub universe: Seq<char>,
    pub upload_id: Seq<char>,
    pub random_range_read_max_start: Option<u64>,
    pub random_range_read_max_len: Option<u64>,
}

/// Whether a read is of a range of the object.
pub open spec fn reads_range(s: Settings) -> bool {
    s.random_range_read_max_start is Some
}

/// Whether a call of the scenario is made on an object that is picked.
/// Asking after an upload is not: it names the upload.
pub open spec fn picks_object(s: Settings) -> bool {
    s.scenario != GcsBenchScenario::QueryWriteStatus
}

/// The settings leave something to pick from wherever a call of their
/// scenario needs a pick: there is an object where the call is made on
/// one, and a read of a range has an upper end above 1 for its offset and
/// for its length.
pub open spec fn can_pick(s: Settings) -> bool {
    &&& picks_object(s) ==> s.objects.len() > 0
    &&& s.scenario == GcsBenchScenario::ReadObject ==> {
        &&& s.random_range_read_max_start is Some ==> s.random_range_read_max_start->0 > 1
            && s.random_range_read_max_len is Some
        &&& s.random_range_read_max_len is Some ==> s.random_range_read_max_len->0 > 1
    }
}

/// The settings leave something to pick from where the run is prepared
/// by a call: that call begins an upload of an object, so there has to be
/// one. A scenario that needs no preparation asks for nothing.
pub open spec fn can_prepare(s: Settings) -> bool {
    s.scenario == GcsBenchScenario::QueryWriteStatus ==> s.objects.len() > 0
}

/// The picks are among what the settings leave to pick from, as far as a
/// call of the scenario needs them.
pub open spec fn fits(picks: Picks, s: Settings) -> bool {
    &&& picks_object(s) ==> picks.object < s.objects.len()
    &&& picks.suffix < SUFFIX_LIMIT
    &&& s.scenario == GcsBenchScenario::ReadObject && s.random_range_read_max_start is Some ==> 1
        <= picks.start < s.random_range_read_max_start->0
    &&& s.scenario == GcsBenchScenario::ReadObject && s.random_range_read_max_len is Some ==> 1
        <= picks.length < s.random_range_read_max_len->0
}

/// The name under which an object is written: that of the object that was
/// picked, an underscore, and the number that was picked.
pub open spec fn written_name(object: Seq<char>, suffix: u64) -> Seq<char> {
    object + seq!['_'] + decimal_of(suffix as nat)
}

/// The call that a worker makes with the given picks.
pub open spec fn planned(s: Settings, picks: Picks) -> Call {
    let object = s.objects[picks.object as int];
    match s.scenario {
        GcsBenchScenario::ReadObject => if reads_range(s) {
            Call::RangeRead {
                bucket: s.bucket,
                object,
                start: picks.start,
                length: picks.length,
            }
        } else {
            Call::ReadObject { bucket: s.bucket, object }
        },
        GcsBenchScenario::QueryWriteStatus => Call::QueryWriteStatus { upload_id: s.upload_id },
        GcsBenchScenario::ResumableWriteObject => Call::WriteObject {
            bucket: s.bucket,
            object: written_name(object, picks.suffix),
            size: s.object_size,
            resumable: true,
        },
        GcsBenchScenario::NonresumableWriteObject => Call::WriteObject {
            bucket: s.bucket,
            object: written_name(object, picks.suffix),
            size: s.object_size,
            resumable: false,
        },
    }
}

/// The call that prepares the calls of a run, where the scenario needs
/// one: asking after an upload needs an upload that was begun.
pub open spec fn prepared(s: Settings, picks: Picks) -> Option<Call> {
    if s.scenario == GcsBenchScenario::QueryWriteStatus {
        Some(Call::StartResumableWrite { bucket: s.bucket, object: s.objects[picks.object as int] })
    } else {
        None
    }
}

/// `n` as a `usize`, or `usize::MAX` where it is larger.
pub open spec fn as_size(n: u64) -> usize {
    if n > usize::MAX {
        usize::MAX
    } else {
        n as usize
    }
}

/// Number of bytes that a call of the scenario has processed where it
/// succeeded: those that were written, or those that the store sent.
pub open spec fn processed(s: Settings, bytes_received: u64) -> usize {
    match s.scenario {
        GcsBenchScenario::ResumableWriteObject
        | GcsBenchScenario::NonresumableWriteObject => as_size(s.object_size),
        _ => as_size(bytes_received),
    }
}

/// What a call that took `nanos` nanoseconds came to: a success with the
/// status `OK` and the bytes it processed, or a failure with the error
/// code of the store as its status and no bytes. Neither is fatal, and
/// neither names an operation.
pub open spec fn outcome_of(
    s: Settings,
    success: bool,
    bytes_received: u64,
    error_code: Seq<char>,
    nanos: nat,
) -> Outcome {
    Outcome {
        success,
        bytes: if success {
            processed(s, bytes_received)
        } else {
            0
        },
        status: if success {
            "OK"@
        } else {
            error_code
        },
        micros: nanos / 1000,
        operation: None,
        fatal: false,
    }
}

/// The message with which the preparation of a run fails.
pub open spec fn upload_failure() -> Seq<char> {
    "Failed to initialize an upload, aborting"@
}

/// The benchmark of an object store.
#[derive(Debug)]
pub struct GcsBenchAdapter {
    gcp_project: String,
    api: String,
    bucket: String,
    objects: Vec<String>,
    object_size: u64,
    scenario: GcsBenchScenario,
    universe: String,
    upload_id: String,
    random_range_read_max_start: Option<u64>,
    random_range_read_max_len: Option<u64>,
}

impl View for GcsBenchAdapter {
    type V = Settings;

    closed spec fn view(&self) -> Settings {
        Settings {
            gcp_project: self.gcp_project@,
            api: self.api@,
            bucket: self.bucket@,
            objects: Seq::new(self.objects@.len(), |i: int| self.objects@[i]@),
            object_size: self.object_size,
            scenario: self.scenario,
            universe: self.universe@,
            upload_id: self.upload_id@,
            random_range_read_max_start: self.random_range_read_max_start,
            random_range_read_max_len: self.random_range_read_max_len,
        }
    }
}

impl GcsBenchAdapter {
    /// A benchmark with the given settings, and no upload begun.
    pub fn new(
        gcp_project: String,
        api: String,
        bucket: String,
        objects: Vec<String>,
        object_size: u64,
        scenario: GcsBenchScenario,
        universe: String,
        random_range_read_max_start: Option<u64>,
        random_range_read_max_len: Option<u64>,
    ) -> (adapter: Self)
        ensures
            adapter@ == (Settings {
                gcp_project: gcp_project@,
                api: api@,
                bucket: bucket@,
                objects: Seq::new(objects@.len(), |i: int| objects@[i]@),
                object_size,
                scenario,
                universe: universe@,
                upload_id: Seq::empty(),
                random_range_read_max_start,
                random_range_read_max_len,
            }),
    {
        GcsBenchAdapter {
            gcp_project,
            api,
            bucket,
            objects,
            object_size,
            scenario,
            universe,
            upload_id: String::new(),
            random_range_read_max_start,
            random_range_read_max_len,
        }
    }

    /// Whether the settings leave something to pick from where the run is
    /// prepared by a call.
    pub fn is_preparable(&self) -> (preparable: bool)
        ensures
            preparable == can_prepare(self@),
    {
        match self.scenario {
            GcsBenchScenario::QueryWriteStatus => self.objects.len() > 0,
            _ => true,
        }
    }

    /// Whether the settings leave something to pick from for every call.
    pub fn is_usable(&self) -> (usable: bool)
        ensures
            usable == can_pick(self@),
    {
        match self.scenario {
            GcsBenchScenario::QueryWriteStatus => {
                return true;
            },
            _ => {},
        }
        if self.objects.len() == 0 {
            return false;
        }
        match self.scenario {
            GcsBenchScenario::ReadObject => {
                let start_fits = match self.random_range_read_max_start {
                    Some(limit) => limit > 1 && self.random_range_read_max_len.is_some(),
                    None => true,
                };
                let length_fits = match self.random_range_read_max_len {
                    Some(limit) => limit > 1,
                    None => true,
                };
                start_fits && length_fits
            },
            _ => true,
        }
    }

    /// The transport of the client, where the settings name one.
    pub fn client_api(&self) -> (api: Option<GCSClientAPI>)
        ensures
            api == client_api_of(self@.api),
    {
        parse_client_api(self.api.as_str())
    }

    /// The name of the transport as the settings give it.
    pub fn api(&self) -> (api: &String)
        ensures
            api@ == self@.api,
    {
        &self.api
    }

    /// The upload that the calls of the run ask after; empty as long as
    /// none was begun.
    pub fn upload_id(&self) -> (id: &String)
        ensures
            id@ == self@.upload_id,
    {
        &self.upload_id
    }

    /// The project of the client.
    pub fn gcp_project(&self) -> (project: &String)
        ensures
            project@ == self@.gcp_project,
    {
        &self.gcp_project
    }

    /// The universe of the client.
    pub fn universe(&self) -> (universe: &String)
        ensures
            universe@ == self@.universe,
    {
        &self.universe
    }

    /// The bucket of the objects.
    pub fn bucket(&self) -> (bucket: &String)
        ensures
            bucket@ == self@.bucket,
    {
        &self.bucket
    }

    /// The objects that the calls pick from.
    pub fn objects(&self) -> (objects: &Vec<String>)
        ensures
            objects@.len() == self@.objects.len(),
            forall|i: int|
                0 <= i < objects@.len() ==> (#[trigger] objects@[i])@ == self@.objects[i],
    {
        &self.objects
    }

    /// The size of an object that is written.
    pub fn object_size(&self) -> (size: u64)
        ensures
            size == self@.object_size,
    {
        self.object_size
    }

    /// The upper end of the offsets at which a read of a range begins,
    /// where reads are of ranges.
    pub fn random_range_read_max_start(&self) -> (limit: Option<u64>)
        ensures
            limit == self@.random_range_read_max_start,
    {
        self.random_range_read_max_start
    }

    /// The upper end of the lengths of a read of a range.
    pub fn random_range_read_max_len(&self) -> (limit: Option<u64>)
        ensures
            limit == self@.random_range_read_max_len,
    {
        self.random_range_read_max_len
    }

    /// The scenario of the benchmark.
    pub fn scenario(&self) -> (scenario: GcsBenchScenario)
        ensures
            scenario == self@.scenario,
    {
        self.scenario
    }

    /// What chance decides of one call: the object of a read or a write,
    /// the number behind the name of an object that is written, and the
    /// range of a read of a range. What a call of the scenario has no use
    /// for is not drawn, and is 0.
    pub fn pick(&self) -> (picks: Picks)
        requires
            can_pick(self@),
        ensures
            fits(picks, self@),
            !picks_object(self@) ==> picks.object == 0,
            self@.scenario == GcsBenchScenario::ReadObject || self@.scenario
                == GcsBenchScenario::QueryWriteStatus ==> picks.suffix == 0,
            !(self@.scenario == GcsBenchScenario::ReadObject
                && self@.random_range_read_max_start is Some) ==> picks.start == 0,
            !(self@.scenario == GcsBenchScenario::ReadObject
                && self@.random_range_read_max_len is Some) ==> picks.length == 0,
    {
        let mut object: usize = 0;
        let mut suffix: u64 = 0;
        let mut start: u64 = 0;
        let mut length: u64 = 0;
        match self.scenario {
            GcsBenchScenario::QueryWriteStatus => {},
            GcsBenchScenario::ResumableWriteObject | GcsBenchScenario::NonresumableWriteObject => {
                object = random_between(0, self.objects.len() as u64) as usize;
                suffix = random_between(0, SUFFIX_LIMIT);
            },
            GcsBenchScenario::ReadObject => {
                object = random_between(0, self.objects.len() as u64) as usize;
                match self.random_range_read_max_start {
                    Some(limit) => {
                        start = random_between(1, limit);
                    },
                    None => {},
                }
                match self.random_range_read_max_len {
                    Some(limit) => {
                        length = random_between(1, limit);
                    },
                    None => {},
                }
            },
        }
        Picks { object, suffix, start, length }
    }

    /// The call that a worker makes with the given picks.
    pub fn plan_with(&self, picks: &Picks) -> (call: GcsCall)
        requires
            picks_object(self@) ==> picks.object < self@.objects.len(),
        ensures
            call@ == planned(self@, *picks),
    {
        match self.scenario {
            GcsBenchScenario::ReadObject => match self.random_range_read_max_start {
                Some(_) => GcsCall::RangeRead {
                    bucket: self.bucket.clone(),
                    object: self.objects[picks.object].clone(),
                    start: picks.start,
                    length: picks.length,
                },
                None => GcsCall::ReadObject {
                    bucket: self.bucket.clone(),
                    object: self.objects[picks.object].clone(),
                },
            },
            GcsBenchScenario::QueryWriteStatus => GcsCall::QueryWriteStatus {
                upload_id: self.upload_id.clone(),
            },
            GcsBenchScenario::ResumableWriteObject => GcsCall::WriteObject {
                bucket: self.bucket.clone(),
                object: write_name(self.objects[picks.object].clone(), picks.suffix),
                size: self.object_size,
                resumable: true,
            },
            GcsBenchScenario::NonresumableWriteObject => GcsCall::WriteObject {
                bucket: self.bucket.clone(),
                object: write_name(self.objects[picks.object].clone(), picks.suffix),
                size: self.object_size,
                resumable: false,
            },
        }
    }

    /// The call that a worker makes next, with what chance decides of it.
    pub fn next_call(&self) -> (call: GcsCall)
        requires
            can_pick(self@),
        ensures
            exists|picks: Picks| fits(picks, self@) && call@ == planned(self@, picks),
    {
        let picks = self.pick();
        self.plan_with(&picks)
    }

    /// The call that prepares the run with the given picks, where the
    /// scenario needs one.
    pub fn prepare_with(&self, picks: &Picks) -> (call: Option<GcsCall>)
        requires
            self@.scenario == GcsBenchScenario::QueryWriteStatus ==> picks.object
                < self@.objects.len(),
        ensures
            match call {
                Some(made) => prepared(self@, *picks) == Some(made@),
                None => prepared(self@, *picks) is None,
            },
    {
        match self.scenario {
            GcsBenchScenario::QueryWriteStatus => Some(
                GcsCall::StartResumableWrite {
                    bucket: self.bucket.clone(),
                    object: self.objects[picks.object].clone(),
                },
            ),
            _ => None,
        }
    }

    /// The call that prepares the run, where the scenario needs one: it
    /// begins an upload of an object that chance picks. A scenario that
    /// needs none is prepared without a call, whatever the settings hold.
    pub fn prepare(&self) -> (call: Option<GcsCall>)
        requires
            can_prepare(self@),
        ensures
            (call is Some) == (self@.scenario == GcsBenchScenario::QueryWriteStatus),
            call is Some ==> exists|picks: Picks|
                picks.object < self@.objects.len() && prepared(self@, picks) == Some(call->0@),
    {
        match self.scenario {
            GcsBenchScenario::QueryWriteStatus => {
                let object = random_between(0, self.objects.len() as u64) as usize;
                let picks = Picks { object, suffix: 0, start: 0, length: 0 };
                self.prepare_with(&picks)
            },
            _ => None,
        }
    }

    /// Takes in what the call that prepares the run came to: the upload
    /// that it began is the one that the calls of the run ask after. Where
    /// it failed the run cannot begin, and the settings stay.
    pub fn finish_preparation(&mut self, result: &CallResult) -> (done: Result<(), String>)
        ensures
            result.success ==> done is Ok && final(self)@ == (Settings {
                upload_id: result.upload_id@,
                ..old(self)@
            }),
            !result.success ==> done is Err && done->Err_0@ == upload_failure() && final(self)@
                == old(self)@,
    {
        if !result.success {
            Err("Failed to initialize an upload, aborting".to_owned())
        } else {
            self.upload_id = result.upload_id();
            assert(self@.objects =~= old(self)@.objects);
            Ok(())
        }
    }

    /// What a call of the scenario came to, from the answer of the store
    /// and the time that the call took.
    pub fn request_stats(&self, result: &CallResult, duration: Duration) -> (stats: RequestStats)
        ensures
            stats.duration == duration,
            stats@ == outcome_of(
                self@,
                result.success,
                result.bytes_received,
                result.error_code@,
                crate::clock::nanos_of(duration),
            ),
    {
        if result.success {
            let bytes: u64 = match self.scenario {
                GcsBenchScenario::ResumableWriteObject
                | GcsBenchScenario::NonresumableWriteObject => self.object_size,
                _ => result.bytes_received,
            };
            RequestStats {
                is_success: true,
                bytes_processed: if bytes > usize::MAX as u64 {
                    usize::MAX
                } else {
                    bytes as usize
                },
                status: "OK".to_owned(),
                duration,
                operation_name: None,
                fatal_error: false,
            }
        } else {
            RequestStats {
                is_success: false,
                bytes_processed: 0,
                status: result.error_code(),
                duration,
                operation_name: None,
                fatal_error: false,
            }
        }
    }
}

/// The same texts in a vector of their own.
fn copy_texts(texts: &Vec<String>) -> (copy: Vec<String>)
    ensures
        copy@.len() == texts@.len(),
        forall|i: int| 0 <= i < texts@.len() ==> (#[trigger] copy@[i])@ == texts@[i]@,
{
    let mut copy: Vec<String> = Vec::new();
    let mut i: usize = 0;
    while i < texts.len()
        invariant
            0 <= i <= texts@.len(),
            copy@.len() == i,
            forall|k: int| 0 <= k < i ==> (#[trigger] copy@[k])@ == texts@[k]@,
        decreases texts.len() - i,
    {
        copy.push(texts[i].clone());
        i = i + 1;
    }
    copy
}

impl Clone for GcsBenchAdapter {
    /// A benchmark of its own with the same settings.
    fn clone(&self) -> (copy: Self)
        ensures
            copy@ == self@,
    {
        let copy = GcsBenchAdapter {
            gcp_project: self.gcp_project.clone(),
            api: self.api.clone(),
            bucket: self.bucket.clone(),
            objects: copy_texts(&self.objects),
            object_size: self.object_size,
            scenario: self.scenario,
            universe: self.universe.clone(),
            upload_id: self.upload_id.clone(),
            random_range_read_max_start: self.random_range_read_max_start,
            random_range_read_max_len: self.random_range_read_max_len,
        };
        assert(copy@.objects =~= self@.objects);
        copy
    }
}

/// The name under which an object is written.
fn write_name(object: String, suffix: u64) -> (name: String)
    ensures
        name@ == written_name(object@, suffix),
{
    proof {
        reveal_strlit("_");
    }
    let mut name = object;
    name.append("_");
    let number = decimal_text(suffix);
    name.append(number.as_str());
    assert(name@ =~= written_name(object@, suffix));
    name
}

} // verus!
