//! The small traits shared by assets, selectors, rules and media frames.

use vstd::prelude::*;

verus! {

/// Something with a name of its own.
pub trait Name {
    fn name(&self) -> &String;
}

/// Something whose kind has a name.
pub trait Named {
    fn name() -> String;
}

/// A property paired with its value.
pub trait PropertyValue {
    type PropertyType;

    type ValueType;

    fn property(&self) -> &Self::PropertyType;

    fn value(&self) -> &Self::ValueType;
}

/// A property paired with its value.
pub trait PropertyValuePair {
    type PropertyType;

    type ValueType;

    fn property(&self) -> &Self::PropertyType;

    fn value(&self) -> &Self::ValueType;
}

/// Something that carries raw data.
pub trait Resource {
    type Data;

    fn data(&self) -> &Self::Data;
}

/// A resource that stands on its own as an asset.
pub trait Asset: Resource {

}

/// A resource with a width and a height.
pub trait FramedResource: Resource {
    fn dimensions(&self) -> (u32, u32);

    fn width(&self) -> u32;

    fn height(&self) -> u32;
}

/// A resource with a duration.
pub trait SequencedResource: Resource {
    fn duration(&self) -> u64;
}

/// Something that can build a resource.
pub trait Builder {
    type Resource;

    type Error;

    fn build(&self) -> Result<Self::Resource, Self::Error>;
}

} // verus!
