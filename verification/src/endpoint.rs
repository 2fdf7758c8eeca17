use vstd::prelude::*;

verus! {

/// The standard endpoints every plugin answers through its C-ABI dispatcher.
#[derive(Debug, Clone, Copy, PartialEq, Eq, Hash, Structural)]
pub enum StandardEndpoint {
    Start,
    Stop,
    IsWorking,
    DataValid,
    DataMonitor,
    RawData,
    Inbox,
    Outbox,
    GetSubscriptions,
}

/// Numeric identifier of an endpoint on the C-ABI.
pub open spec fn endpoint_id_spec(e: StandardEndpoint) -> u32 {
    match e {
        StandardEndpoint::Start => 0,
        StandardEndpoint::Stop => 1,
        StandardEndpoint::IsWorking => 2,
        StandardEndpoint::DataValid => 3,
        StandardEndpoint::DataMonitor => 4,
        StandardEndpoint::RawData => 5,
        StandardEndpoint::Inbox => 6,
        StandardEndpoint::Outbox => 7,
        StandardEndpoint::GetSubscriptions => 8,
    }
}

/// The endpoint with the given identifier, if there is one.
pub open spec fn endpoint_from_id_spec(id: u32) -> Option<StandardEndpoint> {
    if id == 0 {
        Some(StandardEndpoint::Start)
    } else if id == 1 {
        Some(StandardEndpoint::Stop)
    } else if id == 2 {
        Some(StandardEndpoint::IsWorking)
    } else if id == 3 {
        Some(StandardEndpoint::DataValid)
    } else if id == 4 {
        Some(StandardEndpoint::DataMonitor)
    } else if id == 5 {
        Some(StandardEndpoint::RawData)
    } else if id == 6 {
        Some(StandardEndpoint::Inbox)
    } else if id == 7 {
        Some(StandardEndpoint::Outbox)
    } else if id == 8 {
        Some(StandardEndpoint::GetSubscriptions)
    } else {
        None
    }
}

/// The display name of an endpoint.
pub open spec fn endpoint_name_spec(e: StandardEndpoint) -> Seq<char> {
    match e {
        StandardEndpoint::Start => "start"@,
        StandardEndpoint::Stop => "stop"@,
        StandardEndpoint::IsWorking => "is_working"@,
        StandardEndpoint::DataValid => "data_valid"@,
        StandardEndpoint::DataMonitor => "data_monitor"@,
        StandardEndpoint::RawData => "raw_data"@,
        StandardEndpoint::Inbox => "inbox"@,
        StandardEndpoint::Outbox => "outbox"@,
        StandardEndpoint::GetSubscriptions => "get_subscriptions"@,
    }
}

impl StandardEndpoint {
    /// Every endpoint, in the order of their identifiers.
    pub fn all() -> (v: Vec<StandardEndpoint>)
        ensures
            v.len() == 9,
            forall|i: int| 0 <= i < 9 ==> endpoint_id_spec(#[trigger] v@[i]) == i,
    {
        vec![
            StandardEndpoint::Start,
            StandardEndpoint::Stop,
            StandardEndpoint::IsWorking,
            StandardEndpoint::DataValid,
            StandardEndpoint::DataMonitor,
            StandardEndpoint::RawData,
            StandardEndpoint::Inbox,
            StandardEndpoint::Outbox,
            StandardEndpoint::GetSubscriptions,
        ]
    }

    /// The identifier under which the endpoint is called.
    pub fn id(&self) -> (r: u32)
        ensures
            r == endpoint_id_spec(*self),
    {
        match self {
            StandardEndpoint::Start => 0,
            StandardEndpoint::Stop => 1,
            StandardEndpoint::IsWorking => 2,
            StandardEndpoint::DataValid => 3,
            StandardEndpoint::DataMonitor => 4,
            StandardEndpoint::RawData => 5,
            StandardEndpoint::Inbox => 6,
            StandardEndpoint::Outbox => 7,
            StandardEndpoint::GetSubscriptions => 8,
        }
    }

    /// The endpoint that answers to the given identifier.
    pub fn from_id(id: u32) -> (r: Option<StandardEndpoint>)
        ensures
            r == endpoint_from_id_spec(id),
    {
        match id {
            0 => Some(StandardEndpoint::Start),
            1 => Some(StandardEndpoint::Stop),
            2 => Some(StandardEndpoint::IsWorking),
            3 => Some(StandardEndpoint::DataValid),
            4 => Some(StandardEndpoint::DataMonitor),
            5 => Some(StandardEndpoint::RawData),
            6 => Some(StandardEndpoint::Inbox),
            7 => Some(StandardEndpoint::Outbox),
            8 => Some(StandardEndpoint::GetSubscriptions),
            _ => None,
        }
    }

    /// The lower-case name by which the endpoint is displayed.
    pub fn name(&self) -> (r: &'static str)
        ensures
            r@ == endpoint_name_spec(*self),
    {
        match self {
            StandardEndpoint::Start => "start",
            StandardEndpoint::Stop => "stop",
            StandardEndpoint::IsWorking => "is_working",
            StandardEndpoint::DataValid => "data_valid",
            StandardEndpoint::DataMonitor => "data_monitor",
            StandardEndpoint::RawData => "raw_data",
            StandardEndpoint::Inbox => "inbox",
            StandardEndpoint::Outbox => "outbox",
            StandardEndpoint::GetSubscriptions => "get_subscriptions",
        }
    }

    /// The display text of the endpoint, as a string.
    pub fn to_string(&self) -> (s: String)
        ensures
            s@ == endpoint_name_spec(*self),
    {
        self.name().to_string()
    }
}

/// The endpoints the flow engine's router forwards, by identifier: raw data
/// (5), inbox (6) and outbox (7); the router answers 0 for any other.
pub open spec fn routed_endpoint_spec(id: u32) -> Option<StandardEndpoint> {
    if id == 5 {
        Some(StandardEndpoint::RawData)
    } else if id == 6 {
        Some(StandardEndpoint::Inbox)
    } else if id == 7 {
        Some(StandardEndpoint::Outbox)
    } else {
        None
    }
}

/// The endpoint the router calls for an identifier, if it forwards it.
pub fn routed_endpoint(id: u32) -> (r: Option<StandardEndpoint>)
    ensures
        r == routed_endpoint_spec(id),
{
    match id {
        5 => Some(StandardEndpoint::RawData),
        6 => Some(StandardEndpoint::Inbox),
        7 => Some(StandardEndpoint::Outbox),
        _ => None,
    }
}

/// Identifiers and endpoints correspond one to one: decoding the identifier
/// of an endpoint gives the endpoint back, and every identifier that decodes
/// to an endpoint is that endpoint's identifier.
pub proof fn lemma_endpoint_id_roundtrip(e: StandardEndpoint, id: u32)
    ensures
        endpoint_from_id_spec(endpoint_id_spec(e)) == Some(e),
        endpoint_from_id_spec(id) matches Some(f) ==> endpoint_id_spec(f) == id,
        endpoint_from_id_spec(id) is None <==> id > 8,
{
}

/// The identifiers and names of the standard endpoints: Start 0, Stop 1,
/// IsWorking 2, DataValid 3, DataMonitor 4, RawData 5, Inbox 6, Outbox 7,
/// GetSubscriptions 8.
pub proof fn lemma_endpoint_table()
    ensures
        endpoint_id_spec(StandardEndpoint::Start) == 0 && endpoint_name_spec(StandardEndpoint::Start) == "start"@,
        endpoint_id_spec(StandardEndpoint::Stop) == 1 && endpoint_name_spec(StandardEndpoint::Stop) == "stop"@,
        endpoint_id_spec(StandardEndpoint::IsWorking) == 2 && endpoint_name_spec(StandardEndpoint::IsWorking)
            == "is_working"@,
        endpoint_id_spec(StandardEndpoint::DataValid) == 3 && endpoint_name_spec(StandardEndpoint::DataValid)
            == "data_valid"@,
        endpoint_id_spec(StandardEndpoint::DataMonitor) == 4 && endpoint_name_spec(StandardEndpoint::DataMonitor)
            == "data_monitor"@,
        endpoint_id_spec(StandardEndpoint::RawData) == 5 && endpoint_name_spec(StandardEndpoint::RawData)
            == "raw_data"@,
        endpoint_id_spec(StandardEndpoint::Inbox) == 6 && endpoint_name_spec(StandardEndpoint::Inbox) == "inbox"@,
        endpoint_id_spec(StandardEndpoint::Outbox) == 7 && endpoint_name_spec(StandardEndpoint::Outbox) == "outbox"@,
        endpoint_id_spec(StandardEndpoint::GetSubscriptions) == 8 && endpoint_name_spec(
            StandardEndpoint::GetSubscriptions,
        ) == "get_subscriptions"@,
{
}

} // verus!
