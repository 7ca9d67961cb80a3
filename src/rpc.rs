use vstd::prelude::*;
use vstd::string::*;

use crate::registry::{freshly_started, reports, Registry, RegistryError, StartPlan, StatusInfo};
use crate::process::SupervisedProcess;
use crate::service::{strings_view, ServiceSpec, ServiceSpecView};

verus! {

/// A request of the line protocol.
#[derive(Debug)]
pub enum Request {
    Register { spec: ServiceSpec },
    Unregister { name: String },
    Start { name: String },
    Stop { name: String },
    List,
    Status { name: String },
}

/// The payload of a successful `list` or `status`.
#[derive(Debug)]
pub enum ResponseData {
    Services(Vec<ServiceSpec>),
    Status(StatusInfo),
}

/// The answer to one request line.
#[derive(Debug)]
pub struct Response {
    pub ok: bool,
    pub message: Option<String>,
    pub data: Option<ResponseData>,
}

/// What handling a request calls for from the caller.
#[derive(Debug)]
pub enum Dispatch<H> {
    /// Send this response.
    Reply(Response),
    /// Launch a process for the named service with this argument vector,
    /// then report the outcome with `Registry::finish_launch`.
    Launch(String, Vec<String>),
    /// Terminate and reap this process, then send the response.
    Terminate(H, Response),
}

/// Whether `r` is a response with status `ok`, message `msg` and no data.
pub open spec fn replies(r: Response, ok: bool, msg: Seq<char>) -> bool {
    &&& r.ok == ok
    &&& r.message matches Some(m) && m@ == msg
    &&& r.data is None
}

/// The text that describes an error of the registry.
pub open spec fn error_text(e: RegistryError) -> Seq<char> {
    match e {
        RegistryError::NotFound => "service not found"@,
        RegistryError::AlreadyExists => "service exists"@,
        RegistryError::NotRunning => "not running"@,
        RegistryError::EmptyCommand => "empty command"@,
        RegistryError::SpawnFailed(detail) => detail@,
    }
}

impl RegistryError {
    /// The text that describes this error.
    pub fn message(&self) -> (r: String)
        ensures
            r@ == error_text(*self),
    {
        match self {
            RegistryError::NotFound => String::from_str("service not found"),
            RegistryError::AlreadyExists => String::from_str("service exists"),
            RegistryError::NotRunning => String::from_str("not running"),
            RegistryError::EmptyCommand => String::from_str("empty command"),
            RegistryError::SpawnFailed(detail) => detail.clone(),
        }
    }
}

/// Whether `c` has Unicode's White_Space property.
pub open spec fn white_space(c: char) -> bool {
    let u = c as u32;
    ||| 0x09 <= u <= 0x0d
    ||| u == 0x20
    ||| u == 0x85
    ||| u == 0xa0
    ||| u == 0x1680
    ||| 0x2000 <= u <= 0x200a
    ||| u == 0x2028
    ||| u == 0x2029
    ||| u == 0x202f
    ||| u == 0x205f
    ||| u == 0x3000
}

/// Whether `c` has Unicode's White_Space property.
pub fn is_white_space(c: char) -> (r: bool)
    ensures
        r == white_space(c),
{
    let u = c as u32;
    (0x09 <= u && u <= 0x0d) || u == 0x20 || u == 0x85 || u == 0xa0 || u == 0x1680 || (0x2000 <= u
        && u <= 0x200a) || u == 0x2028 || u == 0x2029 || u == 0x202f || u == 0x205f || u == 0x3000
}

/// Whether every character of `line` is white space: such a line carries no
/// request and gets no response.
pub fn is_blank(line: &str) -> (r: bool)
    ensures
        r == forall|i: int| 0 <= i < line@.len() ==> white_space(#[trigger] line@[i]),
{
    let n = line.unicode_len();
    let mut i: usize = 0;
    while i < n
        invariant
            n == line@.len(),
            i <= n,
            forall|k: int| 0 <= k < i ==> white_space(#[trigger] line@[k]),
        decreases n - i,
    {
        if !is_white_space(line.get_char(i)) {
            return false;
        }
        i = i + 1;
    }
    true
}

/// A response with no data.
fn reply(ok: bool, msg: &str) -> (r: Response)
    ensures
        replies(r, ok, msg@),
{
    Response { ok, message: Some(String::from_str(msg)), data: None }
}

/// A failure response whose message is `prefix` followed by `detail`.
fn reply_failed(prefix: &str, detail: &str) -> (r: Response)
    ensures
        replies(r, false, prefix@ + detail@),
{
    let mut m = String::from_str(prefix);
    m.append(detail);
    Response { ok: false, message: Some(m), data: None }
}

/// The response to a line that is not a valid request; `detail` says why.
pub fn invalid_request(detail: &str) -> (r: Response)
    ensures
        replies(r, false, "invalid request: "@ + detail@),
{
    reply_failed("invalid request: ", detail)
}

/// Whether `r` is the plain response of `replies(_, ok, msg)`.
pub open spec fn is_reply<H>(r: Dispatch<H>, ok: bool, msg: Seq<char>) -> bool {
    r matches Dispatch::Reply(resp) && replies(resp, ok, msg)
}

/// Whether `r` hands over `child` to be terminated, then sends
/// `replies(_, ok, msg)`.
pub open spec fn is_terminate<H>(r: Dispatch<H>, child: H, ok: bool, msg: Seq<char>) -> bool {
    r matches Dispatch::Terminate(h, resp) && h == child && replies(resp, ok, msg)
}

/// Whether `r` is a successful response that lists the definitions `specs`.
pub open spec fn is_listing<H>(r: Dispatch<H>, specs: Seq<ServiceSpecView>) -> bool {
    r matches Dispatch::Reply(resp) && resp.ok && resp.message is None && (resp.data matches Some(
        ResponseData::Services(v),
    ) && v@.map_values(|s: ServiceSpec| s@) == specs)
}

/// Whether `r` is a successful response that reports the state of the
/// process `p` of `name` at time `now`.
pub open spec fn is_status<H>(r: Dispatch<H>, name: Seq<char>, p: SupervisedProcess<H>, now: u64) -> bool {
    r matches Dispatch::Reply(resp) && resp.ok && resp.message is None && (resp.data matches Some(
        ResponseData::Status(info),
    ) && reports(info, name, p, now))
}

/// Whether `r` answers a request that stopped `name` in the registry `old`
/// with the success message `msg`: the process it held, if any, is handed
/// over to be terminated first.
pub open spec fn answers_stop<H>(r: Dispatch<H>, old: Registry<H>, name: Seq<char>, msg: Seq<char>) -> bool {
    if old.is_running(name) {
        is_terminate(r, old.proc_of(name).child->0, true, msg)
    } else {
        is_reply(r, true, msg)
    }
}

impl<H> Registry<H> {
    /// Handles one request; `now` is the current time in milliseconds.
    /// Starting a service that needs a new process, and stopping one that
    /// runs, hand the process work to the caller.
    pub fn dispatch(&mut self, req: Request, now: u64) -> (r: Dispatch<H>)
        requires
            old(self).wf(),
        ensures
            final(self).wf(),
            match req {
                Request::Register { spec } => {
                    &&& final(self).procs() == old(self).procs()
                    &&& if spec@.cmd.len() == 0 {
                        &&& is_reply(r, false, "invalid request: "@ + error_text(RegistryError::EmptyCommand))
                        &&& final(self).specs() == old(self).specs()
                    } else if old(self).has_spec(spec@.name) {
                        &&& is_reply(r, false, "service exists"@)
                        &&& final(self).specs() == old(self).specs()
                    } else {
                        &&& is_reply(r, true, "registered"@)
                        &&& final(self).specs() == old(self).specs().push(spec@)
                    }
                },
                Request::Unregister { name } => {
                    &&& answers_stop(r, *old(self), name@, "unregistered"@)
                    &&& !old(self).has_proc(name@) ==> final(self).procs() == old(self).procs()
                    &&& !final(self).has_spec(name@)
                    &&& !final(self).has_proc(name@)
                    &&& Self::others_kept(old(self), final(self), name@)
                    &&& !old(self).has_spec(name@) ==> final(self).specs() == old(self).specs()
                    &&& forall|i: int|
                        0 <= i < old(self).specs().len() && old(self).specs()[i].name == name@
                            ==> final(self).specs() == old(self).specs().remove(i)
                },
                Request::Start { name } => {
                    &&& final(self).specs() == old(self).specs()
                    &&& final(self).procs() == old(self).procs()
                    &&& !old(self).has_spec(name@) ==> is_reply(
                        r,
                        false,
                        "start failed: "@ + error_text(RegistryError::NotFound),
                    )
                    &&& old(self).has_spec(name@) && old(self).is_running(name@) ==> is_reply(
                        r,
                        true,
                        "started"@,
                    )
                    &&& old(self).has_spec(name@) && !old(self).is_running(name@)
                        && old(self).spec_of(name@).cmd.len() == 0 ==> is_reply(
                        r,
                        false,
                        "start failed: "@ + error_text(RegistryError::EmptyCommand),
                    )
                    &&& old(self).has_spec(name@) && !old(self).is_running(name@)
                        && old(self).spec_of(name@).cmd.len() > 0 ==> (r matches Dispatch::Launch(
                        n,
                        argv,
                    ) && n@ == name@ && strings_view(argv@) == old(self).spec_of(name@).cmd)
                },
                Request::Stop { name } => {
                    &&& answers_stop(r, *old(self), name@, "stopped"@)
                    &&& final(self).specs() == old(self).specs()
                    &&& !old(self).has_proc(name@) ==> final(self).procs() == old(self).procs()
                    &&& !final(self).has_proc(name@)
                    &&& Self::others_kept(old(self), final(self), name@)
                },
                Request::List => {
                    &&& final(self).specs() == old(self).specs()
                    &&& final(self).procs() == old(self).procs()
                    &&& is_listing(r, old(self).specs())
                },
                Request::Status { name } => {
                    &&& final(self).specs() == old(self).specs()
                    &&& final(self).procs() == old(self).procs()
                    &&& !old(self).has_proc(name@) ==> is_reply(r, false, "not running"@)
                    &&& old(self).has_proc(name@) ==> is_status(r, name@, old(self).proc_of(name@), now)
                },
            },
    {
        match req {
            Request::Register { spec } => {
                match self.register(spec) {
                    Ok(()) => Dispatch::Reply(reply(true, "registered")),
                    Err(RegistryError::EmptyCommand) => Dispatch::Reply(
                        invalid_request(RegistryError::EmptyCommand.message().as_str()),
                    ),
                    Err(_) => Dispatch::Reply(reply(false, "service exists")),
                }
            },
            Request::Unregister { name } => {
                match self.unregister(name.as_str()) {
                    Some(child) => Dispatch::Terminate(child, reply(true, "unregistered")),
                    None => Dispatch::Reply(reply(true, "unregistered")),
                }
            },
            Request::Start { name } => {
                match self.begin_start(name.as_str()) {
                    Ok(StartPlan::AlreadyRunning) => Dispatch::Reply(reply(true, "started")),
                    Ok(StartPlan::Launch(argv)) => Dispatch::Launch(name, argv),
                    Err(e) => {
                        let detail = e.message();
                        Dispatch::Reply(reply_failed("start failed: ", detail.as_str()))
                    },
                }
            },
            Request::Stop { name } => {
                match self.stop(name.as_str()) {
                    Some(child) => Dispatch::Terminate(child, reply(true, "stopped")),
                    None => Dispatch::Reply(reply(true, "stopped")),
                }
            },
            Request::List => {
                let v = self.list();
                Dispatch::Reply(
                    Response { ok: true, message: None, data: Some(ResponseData::Services(v)) },
                )
            },
            Request::Status { name } => {
                match self.status(name.as_str(), now) {
                    Ok(info) => Dispatch::Reply(
                        Response { ok: true, message: None, data: Some(ResponseData::Status(info)) },
                    ),
                    Err(_) => Dispatch::Reply(reply(false, "not running")),
                }
            },
        }
    }

    /// Completes a start that `dispatch` answered with `Launch`: `outcome` is
    /// the launched process, or why the system could not create it. A process
    /// that is no longer wanted, because the service went away or was started
    /// meanwhile, is handed back to be terminated.
    pub fn finish_launch(&mut self, name: &str, outcome: Result<H, String>, now: u64) -> (r: Dispatch<H>)
        requires
            old(self).wf(),
        ensures
            final(self).wf(),
            final(self).specs() == old(self).specs(),
            Self::others_kept(old(self), final(self), name@),
            match outcome {
                Err(e) => {
                    &&& is_reply(r, false, "start failed: "@ + e@)
                    &&& final(self).procs() == old(self).procs()
                },
                Ok(child) => if !old(self).has_spec(name@) {
                    &&& is_terminate(r, child, false, "start failed: "@ + error_text(RegistryError::NotFound))
                    &&& final(self).procs() == old(self).procs()
                } else if old(self).is_running(name@) {
                    &&& is_terminate(r, child, true, "started"@)
                    &&& final(self).procs() == old(self).procs()
                } else if old(self).spec_of(name@).cmd.len() == 0 {
                    &&& is_terminate(
                        r,
                        child,
                        false,
                        "start failed: "@ + error_text(RegistryError::EmptyCommand),
                    )
                    &&& final(self).procs() == old(self).procs()
                } else {
                    &&& is_reply(r, true, "started"@)
                    &&& final(self).has_proc(name@)
                    &&& freshly_started(final(self).proc_of(name@), old(self).spec_of(name@), child, now)
                },
            },
    {
        match outcome {
            Err(e) => Dispatch::Reply(reply_failed("start failed: ", e.as_str())),
            Ok(child) => {
                match self.begin_start(name) {
                    Ok(StartPlan::Launch(_)) => {
                        self.complete_start(name, child, now);
                        Dispatch::Reply(reply(true, "started"))
                    },
                    Ok(StartPlan::AlreadyRunning) => Dispatch::Terminate(child, reply(true, "started")),
                    Err(e) => {
                        let detail = e.message();
                        Dispatch::Terminate(child, reply_failed("start failed: ", detail.as_str()))
                    },
                }
            },
        }
    }
}

} // verus!
