use vstd::prelude::*;

verus! {

/// The functions that the API serves, by number: `Health` is 0, `Other` is 1.
#[derive(Debug, Clone, Copy, PartialEq, Eq, Structural)]
pub enum FunctionId {
    Health,
    Other,
}

/// The function with number `n`, if there is one.
pub open spec fn function_id_of(n: u32) -> Option<FunctionId> {
    if n == 0 {
        Some(FunctionId::Health)
    } else if n == 1 {
        Some(FunctionId::Other)
    } else {
        None
    }
}

impl FunctionId {
    /// The function with number `n`, if there is one.
    pub fn from_repr(n: u32) -> (r: Option<FunctionId>)
        ensures
            r == function_id_of(n),
    {
        if n == 0 {
            Some(FunctionId::Health)
        } else if n == 1 {
            Some(FunctionId::Other)
        } else {
            None
        }
    }
}

/// What the API server does with a connection that asks for a function.
#[derive(Debug, Clone, Copy, PartialEq, Eq, Structural)]
pub enum Dispatch {
    /// Answer the health request.
    ServeHealth,
    /// A known function that this server does not serve: warn and go on.
    NotSupported(FunctionId),
    /// A number that names no function: warn and go on.
    UnknownFunction(u32),
}

/// The API server. Accepting connections is the program's own; which function
/// a connection is served is decided here.
pub struct RpcServer;

impl RpcServer {
    /// How a connection that asks for function number `function_id` is served.
    pub fn dispatch(function_id: u32) -> (r: Dispatch)
        ensures
            r == match function_id_of(function_id) {
                None => Dispatch::UnknownFunction(function_id),
                Some(FunctionId::Health) => Dispatch::ServeHealth,
                Some(f) => Dispatch::NotSupported(f),
            },
    {
        match FunctionId::from_repr(function_id) {
            None => Dispatch::UnknownFunction(function_id),
            Some(FunctionId::Health) => Dispatch::ServeHealth,
            Some(f) => Dispatch::NotSupported(f),
        }
    }
}

} // verus!
