//! The kinds of parameter that a host offers to a script: a parameter holds
//! a multivector of one grade, or any multivector.
use crate::multivector::{Blade, Multivector};
use vstd::prelude::*;

verus! {

/// The kind of a parameter: the grade to which its value is held, or none.
#[derive(Debug, Clone, Copy, PartialEq, Eq, Structural)]
pub enum ParameterType {
    Grade0,
    Grade1,
    Grade2,
    Grade3,
    Multivector,
}

impl ParameterType {
    /// The name of the kind as it is shown.
    pub open spec fn name(self) -> Seq<char> {
        match self {
            ParameterType::Grade0 => "Scalar"@,
            ParameterType::Grade1 => "Grade 1"@,
            ParameterType::Grade2 => "Grade 2"@,
            ParameterType::Grade3 => "Grade 3"@,
            ParameterType::Multivector => "Multivector"@,
        }
    }

    /// What a value becomes when it is held to the kind: its part of the
    /// grade of the kind, or itself where the kind holds to no grade.
    pub open spec fn held(self, value: Multivector) -> Multivector {
        match self {
            ParameterType::Grade0 => value.grade0(),
            ParameterType::Grade1 => value.grade1(),
            ParameterType::Grade2 => value.grade2(),
            ParameterType::Grade3 => value.grade3(),
            ParameterType::Multivector => value,
        }
    }

    /// The name of the kind as it is shown.
    pub fn display_name(&self) -> (name: &'static str)
        ensures
            name@ == self.name(),
    {
        match *self {
            ParameterType::Grade0 => "Scalar",
            ParameterType::Grade1 => "Grade 1",
            ParameterType::Grade2 => "Grade 2",
            ParameterType::Grade3 => "Grade 3",
            ParameterType::Multivector => "Multivector",
        }
    }

    /// Whether a value that is held to the kind keeps its component of the
    /// given blade. The components that it does not keep become zero.
    pub fn keeps(&self, blade: Blade) -> (kept: bool)
        ensures
            forall|value: Multivector| #[trigger]
                self.held(value).component(blade) == if kept {
                    value.component(blade)
                } else {
                    0real
                },
    {
        match *self {
            ParameterType::Grade0 => blade.grade() == 0,
            ParameterType::Grade1 => blade.grade() == 1,
            ParameterType::Grade2 => blade.grade() == 2,
            ParameterType::Grade3 => blade.grade() == 3,
            ParameterType::Multivector => true,
        }
    }
}

} // verus!
