use vstd::prelude::*;

use crate::models::{
    Agent, IpNet, NewAgent, ip_network_from_str, is_random_uuid, parse_ip_network, random_uuid,
};

verus! {

/// A request to register an agent under a hostname and an address.
#[derive(Debug, Clone, PartialEq, Eq)]
pub struct RegisterAgent {
    pub hostname: String,
    pub ip: String,
}

/// Why a registration failed.
#[derive(Debug, Clone, PartialEq, Eq)]
pub enum RegisterError {
    /// The insert was refused.
    InsertFailed,
    /// The inserted agent could not be read back.
    LoadFailed,
}

impl RegisterError {
    /// The text that goes with the error.
    pub open spec fn text(self) -> Seq<char> {
        match self {
            RegisterError::InsertFailed => "Couldn't register agent"@,
            RegisterError::LoadFailed => "Error loading newly created agent"@,
        }
    }

    /// The text that goes with the error; the reply status is always 500.
    pub fn message(&self) -> (s: String)
        ensures
            s@ == self.text(),
    {
        match self {
            RegisterError::InsertFailed => "Couldn't register agent".to_owned(),
            RegisterError::LoadFailed => "Error loading newly created agent".to_owned(),
        }
    }
}

/// The record made for a registration: a fresh random id, the hostname
/// as sent, and the address as `ipnetwork` reads it, whose prefix fits the
/// address family and which is a single host where the text has no `/`.
pub open spec fn is_record_for<'a>(a: NewAgent<'a>, msg: RegisterAgent) -> bool {
    &&& a.hostname@ == msg.hostname@
    &&& Some(a.ip) == ip_network_from_str(msg.ip@)
    &&& a.ip.wf()
    &&& !msg.ip@.contains('/') ==> a.ip.is_host()
    &&& is_random_uuid(a.uuid@)
}

fn assemble<'a>(msg: &'a RegisterAgent, ip: IpNet) -> (a: NewAgent<'a>)
    ensures
        a.hostname@ == msg.hostname@,
        a.ip == ip,
        is_random_uuid(a.uuid@),
{
    let uuid = random_uuid();
    NewAgent { uuid, hostname: msg.hostname.as_str(), ip }
}

/// Builds the record to insert for `msg`. The address must be one that
/// `ipnetwork` accepts.
pub fn new_agent<'a>(msg: &'a RegisterAgent) -> (a: NewAgent<'a>)
    requires
        ip_network_from_str(msg.ip@) is Some,
    ensures
        is_record_for(a, *msg),
{
    let ip = parse_ip_network(msg.ip.as_str()).unwrap();
    assemble(msg, ip)
}

/// Builds the record to insert for `msg`, or `None` where `ipnetwork`
/// refuses its address.
pub fn try_new_agent<'a>(msg: &'a RegisterAgent) -> (r: Option<NewAgent<'a>>)
    ensures
        r is Some <==> ip_network_from_str(msg.ip@) is Some,
        r matches Some(a) ==> is_record_for(a, *msg),
{
    match parse_ip_network(msg.ip.as_str()) {
        Some(_) => Some(new_agent(msg)),
        None => None,
    }
}

/// Where a registration stands.
#[derive(Debug, Clone, PartialEq, Eq)]
pub enum Phase {
    Inserting,
    Loading,
    Finished,
}

/// A query the registration asks the database to run.
#[derive(Debug, Clone, PartialEq, Eq)]
pub enum DbRequest<'a> {
    /// Insert the record.
    Insert(NewAgent<'a>),
    /// Load the agents whose id is the given one.
    LoadByUuid([u8; 16]),
}

/// What the database answered.
#[derive(Debug, PartialEq, Eq)]
pub enum DbResponse {
    /// The insert, with the number of rows written, or its failure.
    Inserted(Result<usize, ()>),
    /// The agents loaded, or the failure of the load.
    Loaded(Result<Vec<Agent>, ()>),
}

/// What the registration does next.
#[derive(Debug, PartialEq, Eq)]
pub enum Step<'a> {
    Query(DbRequest<'a>),
    Done(Result<Agent, RegisterError>),
}

/// One registration of an agent, run against the database one query at a
/// time: insert the record, then read it back by its id.
#[derive(Debug, Clone, PartialEq, Eq)]
pub struct Registration {
    pub uuid: [u8; 16],
    pub phase: Phase,
}

impl Registration {
    /// The registration of `a` before anything was asked of the database.
    pub open spec fn initial<'a>(a: NewAgent<'a>) -> Registration {
        Registration { uuid: a.uuid, phase: Phase::Inserting }
    }

    /// The answers the registration can take in its phase: the insert's
    /// while inserting, the load's while loading, and a successful load is
    /// never empty (the record was just inserted).
    pub open spec fn accepts(self, resp: DbResponse) -> bool {
        match self.phase {
            Phase::Inserting => resp is Inserted,
            Phase::Loading => match resp {
                DbResponse::Loaded(Ok(v)) => v@.len() > 0,
                DbResponse::Loaded(Err(_)) => true,
                _ => false,
            },
            Phase::Finished => false,
        }
    }

    /// The next state and step after an accepted answer.
    pub open spec fn respond<'a>(self, resp: DbResponse) -> (Registration, Step<'a>) {
        match resp {
            DbResponse::Inserted(Ok(_)) => (
                Registration { uuid: self.uuid, phase: Phase::Loading },
                Step::Query(DbRequest::LoadByUuid(self.uuid)),
            ),
            DbResponse::Inserted(Err(_)) => (
                Registration { uuid: self.uuid, phase: Phase::Finished },
                Step::Done(Err(RegisterError::InsertFailed)),
            ),
            DbResponse::Loaded(Ok(v)) => (
                Registration { uuid: self.uuid, phase: Phase::Finished },
                Step::Done(Ok(v@.last())),
            ),
            DbResponse::Loaded(Err(_)) => (
                Registration { uuid: self.uuid, phase: Phase::Finished },
                Step::Done(Err(RegisterError::LoadFailed)),
            ),
        }
    }

    /// Starts the registration of `a`: its first query inserts it.
    pub fn start<'a>(a: NewAgent<'a>) -> (r: (Registration, DbRequest<'a>))
        ensures
            r.0 == Registration::initial(a),
            r.1 == DbRequest::Insert(a),
    {
        let uuid = a.uuid;
        (Registration { uuid, phase: Phase::Inserting }, DbRequest::Insert(a))
    }

    /// Takes the database's answer to the last query.
    pub fn on_response<'a>(&mut self, resp: DbResponse) -> (step: Step<'a>)
        requires
            old(self).accepts(resp),
        ensures
            (*final(self), step) == old(self).respond(resp),
    {
        match resp {
            DbResponse::Inserted(Ok(_)) => {
                self.phase = Phase::Loading;
                Step::Query(DbRequest::LoadByUuid(self.uuid))
            },
            DbResponse::Inserted(Err(_)) => {
                self.phase = Phase::Finished;
                Step::Done(Err(RegisterError::InsertFailed))
            },
            DbResponse::Loaded(Ok(mut v)) => {
                self.phase = Phase::Finished;
                let agent = v.pop().unwrap();
                Step::Done(Ok(agent))
            },
            DbResponse::Loaded(Err(_)) => {
                self.phase = Phase::Finished;
                Step::Done(Err(RegisterError::LoadFailed))
            },
        }
    }
}

/// A registration reads back what it wrote: after a successful insert it
/// loads the agents by the id of the inserted record, and once the load
/// answers it is finished, with the last agent loaded or with the load's
/// error.
pub proof fn lemma_reads_back_inserted_record<'a>(a: NewAgent<'a>, rows: usize, loaded: Result<Vec<Agent>, ()>)
    requires
        loaded matches Ok(v) ==> v@.len() > 0,
    ensures
        Registration::initial(a).accepts(DbResponse::Inserted(Ok(rows))),
        Registration::initial(a).respond(DbResponse::Inserted(Ok(rows))).1
            == Step::Query(DbRequest::LoadByUuid(a.uuid)),
        ({
            let after_insert = Registration::initial(a).respond(DbResponse::Inserted(Ok(rows))).0;
            let (done, step) = after_insert.respond(DbResponse::Loaded(loaded));
            &&& after_insert.accepts(DbResponse::Loaded(loaded))
            &&& done.phase == Phase::Finished
            &&& step == match loaded {
                Ok(v) => Step::Done(Ok(v@.last())),
                Err(_) => Step::Done(Err(RegisterError::LoadFailed)),
            }
        }),
{
}

/// A refused insert ends the registration with the insert error; nothing is
/// loaded, and a finished registration takes no further answer.
pub proof fn lemma_failed_insert_stops<'a>(a: NewAgent<'a>, resp: DbResponse)
    ensures
        Registration::initial(a).respond(DbResponse::Inserted(Err(()))) == (
            Registration { uuid: a.uuid, phase: Phase::Finished },
            Step::Done(Err(RegisterError::InsertFailed)),
        ),
        !Registration::initial(a).respond(DbResponse::Inserted(Err(()))).0.accepts(resp),
{
}

/// Every answer keeps the id the registration was started with, and a query
/// it issues is always a load by that id.
pub proof fn lemma_id_is_stable(r: Registration, resp: DbResponse)
    requires
        r.accepts(resp),
    ensures
        r.respond(resp).0.uuid == r.uuid,
        r.respond(resp).1 matches Step::Query(q) ==> q == DbRequest::LoadByUuid(r.uuid),
{
}

/// Registrations are not merged: each registration of a message, even of
/// the same message twice, starts by inserting its own record, carrying the
/// message's hostname and address, and reads back by that record's id; two
/// registrations whose records drew different ids never read back the same
/// id. Nothing compares a record with those already stored.
pub proof fn lemma_each_registration_inserts_its_own_record<'a, 'b>(
    msg: RegisterAgent,
    first: NewAgent<'a>,
    second: NewAgent<'b>,
    rows: usize,
)
    requires
        is_record_for(first, msg),
        is_record_for(second, msg),
    ensures
        first.hostname@ == msg.hostname@,
        second.hostname@ == msg.hostname@,
        first.ip == second.ip,
        Registration::initial(first).respond(DbResponse::Inserted(Ok(rows))).1
            == Step::Query(DbRequest::LoadByUuid(first.uuid)),
        Registration::initial(second).respond(DbResponse::Inserted(Ok(rows))).1
            == Step::Query(DbRequest::LoadByUuid(second.uuid)),
        first.uuid != second.uuid ==> Registration::initial(first).respond(DbResponse::Inserted(Ok(rows))).1
            != Registration::initial(second).respond(DbResponse::Inserted(Ok(rows))).1,
{
}

} // verus!
