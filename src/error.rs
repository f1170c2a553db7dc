use vstd::prelude::*;
use vstd::string::StringExecFns;

verus! {

/// The errors raised while compiling filters or parsing a partition path.
/// Each variant carries a human-readable message.
#[derive(Debug, Clone)]
pub enum PartitionError {
    /// An operator token outside the canonical set.
    UnsupportedOperator(String),
    /// A filter names a column that the partition schema does not hold.
    FieldNotFound(String),
    /// A literal or a path value cannot be strictly cast into the field's type.
    UnsupportedCast(String),
    /// A partition path whose layout does not match the schema.
    InvalidPartitionPath(String),
}

impl PartitionError {
    /// The message carried by the error.
    pub fn to_string(&self) -> (r: String)
        ensures
            r@ == self.message(),
    {
        match self {
            PartitionError::UnsupportedOperator(m) => m.clone(),
            PartitionError::FieldNotFound(m) => m.clone(),
            PartitionError::UnsupportedCast(m) => m.clone(),
            PartitionError::InvalidPartitionPath(m) => m.clone(),
        }
    }

    pub open spec fn message(&self) -> Seq<char> {
        match self {
            PartitionError::UnsupportedOperator(m) => m@,
            PartitionError::FieldNotFound(m) => m@,
            PartitionError::UnsupportedCast(m) => m@,
            PartitionError::InvalidPartitionPath(m) => m@,
        }
    }
}

/// Builds an error message from a fixed prefix and a detail.
pub(crate) fn message_with(prefix: &str, detail: &str) -> (r: String)
    ensures
        r@ == prefix@ + detail@,
{
    String::from_str(prefix).concat(detail)
}

} // verus!
