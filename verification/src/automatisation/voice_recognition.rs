use vstd::prelude::*;

verus! {

/// The kinds of automation scenario.
#[allow(non_camel_case_types)]
#[derive(Clone, Copy, Debug, PartialEq, Eq, Structural)]
pub enum ScenarioTypes {
    TIMED,
    SENSOR_CONDITIONAL,
    READ_SENSOR_OR_STATE,
    GENERAL_KENOBI,
}

} // verus!
