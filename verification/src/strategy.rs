//! The routing policies a router can be configured with.

use crate::text::str_eq;
use vstd::prelude::*;

verus! {

/// How a router picks one deployment among the eligible ones.
#[derive(Clone, Copy, Debug, PartialEq, Eq, Structural)]
pub enum RoutingStrategy {
    SimpleShuffle,
    LeastBusy,
    LatencyBased,
    CostBased,
    UsageBasedV1,
    UsageBasedV2,
    LeastBusyWithPenalty,
}

/// A loosely typed configuration value that names a strategy.
#[derive(Debug)]
pub enum StrategyValue {
    /// A strategy name such as `"least-busy"`.
    Name(String),
    /// A strategy code, `0` to `6`.
    Code(i32),
    /// A value that is neither text nor an integer.
    Other,
}

/// The strategy that a configuration name denotes, if it denotes one.
pub open spec fn named_strategy(name: Seq<char>) -> Option<RoutingStrategy> {
    if name == "simple-shuffle"@ {
        Some(RoutingStrategy::SimpleShuffle)
    } else if name == "least-busy"@ {
        Some(RoutingStrategy::LeastBusy)
    } else if name == "latency-based-routing"@ {
        Some(RoutingStrategy::LatencyBased)
    } else if name == "cost-based-routing"@ {
        Some(RoutingStrategy::CostBased)
    } else if name == "usage-based-routing"@ {
        Some(RoutingStrategy::UsageBasedV1)
    } else if name == "usage-based-routing-v2"@ {
        Some(RoutingStrategy::UsageBasedV2)
    } else if name == "least-busy-with-penalty"@ {
        Some(RoutingStrategy::LeastBusyWithPenalty)
    } else {
        None
    }
}

/// The strategy that a code denotes, if it denotes one.
pub open spec fn coded_strategy(code: int) -> Option<RoutingStrategy> {
    if code == 0 {
        Some(RoutingStrategy::SimpleShuffle)
    } else if code == 1 {
        Some(RoutingStrategy::LeastBusy)
    } else if code == 2 {
        Some(RoutingStrategy::LatencyBased)
    } else if code == 3 {
        Some(RoutingStrategy::CostBased)
    } else if code == 4 {
        Some(RoutingStrategy::UsageBasedV1)
    } else if code == 5 {
        Some(RoutingStrategy::UsageBasedV2)
    } else if code == 6 {
        Some(RoutingStrategy::LeastBusyWithPenalty)
    } else {
        None
    }
}

/// The strategy a name selects; any unrecognised name selects `LeastBusy`.
pub open spec fn strategy_of_name(name: Seq<char>) -> RoutingStrategy {
    match named_strategy(name) {
        Some(strategy) => strategy,
        None => RoutingStrategy::LeastBusy,
    }
}

/// The strategy a code selects; any unrecognised code selects `LeastBusy`.
pub open spec fn strategy_of_code(code: int) -> RoutingStrategy {
    match coded_strategy(code) {
        Some(strategy) => strategy,
        None => RoutingStrategy::LeastBusy,
    }
}

/// The strategy a configuration value selects.
pub open spec fn strategy_of_value(value: StrategyValue) -> RoutingStrategy {
    match value {
        StrategyValue::Name(name) => strategy_of_name(name@),
        StrategyValue::Code(code) => strategy_of_code(code as int),
        StrategyValue::Other => RoutingStrategy::LeastBusy,
    }
}

impl RoutingStrategy {
    /// The integer code of the strategy.
    pub open spec fn code(self) -> int {
        match self {
            RoutingStrategy::SimpleShuffle => 0,
            RoutingStrategy::LeastBusy => 1,
            RoutingStrategy::LatencyBased => 2,
            RoutingStrategy::CostBased => 3,
            RoutingStrategy::UsageBasedV1 => 4,
            RoutingStrategy::UsageBasedV2 => 5,
            RoutingStrategy::LeastBusyWithPenalty => 6,
        }
    }

    /// The configuration name of the strategy.
    pub open spec fn name(self) -> Seq<char> {
        match self {
            RoutingStrategy::SimpleShuffle => "simple-shuffle"@,
            RoutingStrategy::LeastBusy => "least-busy"@,
            RoutingStrategy::LatencyBased => "latency-based-routing"@,
            RoutingStrategy::CostBased => "cost-based-routing"@,
            RoutingStrategy::UsageBasedV1 => "usage-based-routing"@,
            RoutingStrategy::UsageBasedV2 => "usage-based-routing-v2"@,
            RoutingStrategy::LeastBusyWithPenalty => "least-busy-with-penalty"@,
        }
    }

    /// Reads a strategy from a configuration value: by name, by code, and
    /// `LeastBusy` for anything unrecognised.
    pub fn new(value: &StrategyValue) -> (strategy: Self)
        ensures
            strategy == strategy_of_value(*value),
    {
        match value {
            StrategyValue::Name(name) => Self::from_name(name.as_str()),
            StrategyValue::Code(code) => Self::from_code(*code),
            StrategyValue::Other => RoutingStrategy::LeastBusy,
        }
    }

    /// Reads a strategy from its configuration name, and refuses a name that
    /// denotes none.
    pub fn parse_name(name: &str) -> (parsed: Option<Self>)
        ensures
            parsed == named_strategy(name@),
    {
        if str_eq(name, "simple-shuffle") {
            Some(RoutingStrategy::SimpleShuffle)
        } else if str_eq(name, "least-busy") {
            Some(RoutingStrategy::LeastBusy)
        } else if str_eq(name, "latency-based-routing") {
            Some(RoutingStrategy::LatencyBased)
        } else if str_eq(name, "cost-based-routing") {
            Some(RoutingStrategy::CostBased)
        } else if str_eq(name, "usage-based-routing") {
            Some(RoutingStrategy::UsageBasedV1)
        } else if str_eq(name, "usage-based-routing-v2") {
            Some(RoutingStrategy::UsageBasedV2)
        } else if str_eq(name, "least-busy-with-penalty") {
            Some(RoutingStrategy::LeastBusyWithPenalty)
        } else {
            None
        }
    }

    /// Reads a strategy from its integer code, and refuses a code that
    /// denotes none.
    pub fn parse_code(code: i32) -> (parsed: Option<Self>)
        ensures
            parsed == coded_strategy(code as int),
    {
        match code {
            0 => Some(RoutingStrategy::SimpleShuffle),
            1 => Some(RoutingStrategy::LeastBusy),
            2 => Some(RoutingStrategy::LatencyBased),
            3 => Some(RoutingStrategy::CostBased),
            4 => Some(RoutingStrategy::UsageBasedV1),
            5 => Some(RoutingStrategy::UsageBasedV2),
            6 => Some(RoutingStrategy::LeastBusyWithPenalty),
            _ => None,
        }
    }

    /// Reads a strategy from its configuration name; a name that denotes
    /// none selects `LeastBusy`.
    pub fn from_name(name: &str) -> (strategy: Self)
        ensures
            strategy == strategy_of_name(name@),
    {
        match Self::parse_name(name) {
            Some(strategy) => strategy,
            None => RoutingStrategy::LeastBusy,
        }
    }

    /// Reads a strategy from its integer code; a code that denotes none
    /// selects `LeastBusy`.
    pub fn from_code(code: i32) -> (strategy: Self)
        ensures
            strategy == strategy_of_code(code as int),
    {
        match Self::parse_code(code) {
            Some(strategy) => strategy,
            None => RoutingStrategy::LeastBusy,
        }
    }

    /// The integer code of the strategy.
    pub fn strategy_id(&self) -> (id: i32)
        ensures
            id == self.code(),
    {
        match self {
            RoutingStrategy::SimpleShuffle => 0,
            RoutingStrategy::LeastBusy => 1,
            RoutingStrategy::LatencyBased => 2,
            RoutingStrategy::CostBased => 3,
            RoutingStrategy::UsageBasedV1 => 4,
            RoutingStrategy::UsageBasedV2 => 5,
            RoutingStrategy::LeastBusyWithPenalty => 6,
        }
    }

    /// The configuration name of the strategy.
    pub fn as_str(&self) -> (name: &'static str)
        ensures
            name@ == self.name(),
    {
        match self {
            RoutingStrategy::SimpleShuffle => "simple-shuffle",
            RoutingStrategy::LeastBusy => "least-busy",
            RoutingStrategy::LatencyBased => "latency-based-routing",
            RoutingStrategy::CostBased => "cost-based-routing",
            RoutingStrategy::UsageBasedV1 => "usage-based-routing",
            RoutingStrategy::UsageBasedV2 => "usage-based-routing-v2",
            RoutingStrategy::LeastBusyWithPenalty => "least-busy-with-penalty",
        }
    }
}

/// Reading a strategy back from its own code gives the strategy again.
pub proof fn lemma_code_round_trip(strategy: RoutingStrategy)
    ensures
        coded_strategy(strategy.code()) == Some(strategy),
        strategy_of_code(strategy.code()) == strategy,
        0 <= strategy.code() <= 6,
{
}

/// Reading a strategy back from its own name gives the strategy again: the
/// seven names are pairwise different.
pub proof fn lemma_name_round_trip(strategy: RoutingStrategy)
    ensures
        named_strategy(strategy.name()) == Some(strategy),
        strategy_of_name(strategy.name()) == strategy,
{
    reveal_strlit("simple-shuffle");
    reveal_strlit("least-busy");
    reveal_strlit("latency-based-routing");
    reveal_strlit("cost-based-routing");
    reveal_strlit("usage-based-routing");
    reveal_strlit("usage-based-routing-v2");
    reveal_strlit("least-busy-with-penalty");
    assert("simple-shuffle"@.len() == 14);
    assert("least-busy"@.len() == 10);
    assert("latency-based-routing"@.len() == 21);
    assert("cost-based-routing"@.len() == 18);
    assert("usage-based-routing"@.len() == 19);
    assert("usage-based-routing-v2"@.len() == 22);
    assert("least-busy-with-penalty"@.len() == 23);
}

} // verus!
