//! Typed access to the objects of a container.

use crate::error::{AafError, ErrorView};
use crate::file::AAFFile;
use crate::interchange_object::{InterchangeObjectDescriptor, ObjectView};
use crate::model::{object_at, value_of, FileView};
use crate::properties::{PropertyValue, ValueView};
use crate::types::{AAFFrom, AAFUInt16, AAFUInt32, Auid, OMPropertyId, TimeStamp, VersionType};
use vstd::prelude::*;

verus! {

/// The property of the root object that refers to the header.
pub const AAF_FILE_HEADER_PID: OMPropertyId = 0x0002;

/// The property of the root object that refers to the dictionary of
/// definitions.
pub const AAF_FILE_METADICTIONARY_PID: OMPropertyId = 0x0001;

/// The property that holds the generation of an object.
pub const GENERATION_PID: OMPropertyId = 0x0102;

/// The property of the header that holds the byte order of the container.
pub const HEADER_BYTE_ORDER_PID: OMPropertyId = 0x3b01;

/// The property of the header that holds the time of the last change.
pub const HEADER_LAST_MODIFIED_PID: OMPropertyId = 0x3b02;

/// The property of the header that holds the version of the format.
pub const HEADER_VERSION_PID: OMPropertyId = 0x3b05;

/// The property of the header that holds the version of the object model.
pub const HEADER_OBJECT_MODEL_VERSION_PID: OMPropertyId = 0x3b07;

/// The property of the header that holds the operational pattern.
pub const HEADER_OPERATIONAL_PATTERN_PID: OMPropertyId = 0x3b09;

/// What the property `pid` of `object` holds as a record of type `T`:
/// nothing where the property does not resolve to an inline value, the
/// decoded record where the value is wide enough for one, and an error where
/// it is too short.
pub open spec fn optional_data<T: AAFFrom>(file: FileView, object: ObjectView, pid: OMPropertyId)
    -> Result<Option<T>, AafError> {
    match value_of(file, object, pid) {
        Ok(ValueView::Data(bytes)) => if bytes.len() >= T::width() {
            Ok(Some(T::decoded(bytes)))
        } else {
            Err(AafError::DecodeError)
        },
        _ => Ok(None),
    }
}

/// What the property `pid` of `object` holds as a record of type `T`, for a
/// property that the object must have.
pub open spec fn required_data<T: AAFFrom>(file: FileView, object: ObjectView, pid: OMPropertyId)
    -> Result<T, AafError> {
    match optional_data::<T>(file, object, pid) {
        Ok(Some(value)) => Ok(value),
        Ok(None) => Err(AafError::PropertyNotFound),
        Err(e) => Err(e),
    }
}

/// An object of a container, together with the container.
pub trait AAFObject: Sized {
    /// The container that the object belongs to.
    spec fn file_view(&self) -> FileView;

    /// The object.
    spec fn descriptor(&self) -> ObjectView;

    /// The object that `desc` locates in `file`.
    fn make(file: AAFFile, desc: InterchangeObjectDescriptor) -> (made: Self)
        ensures
            made.file_view() == file@,
            made.descriptor() == desc@,
    ;

    /// The value of the property `pid`, or nothing where it cannot be
    /// resolved.
    fn get_property_value(&mut self, pid: OMPropertyId) -> (r: Option<PropertyValue>)
        ensures
            final(self).file_view() == old(self).file_view(),
            final(self).descriptor() == old(self).descriptor(),
            match r {
                Some(value) => value_of(old(self).file_view(), old(self).descriptor(), pid) == Ok::<
                    _,
                    ErrorView,
                >(value@),
                None => value_of(old(self).file_view(), old(self).descriptor(), pid) is Err,
            },
    ;

    /// The generation of the object, if it records one.
    fn generation(&mut self) -> (r: Result<Option<Auid>, AafError>)
        ensures
            final(self).file_view() == old(self).file_view(),
            final(self).descriptor() == old(self).descriptor(),
            r == optional_data::<Auid>(
                old(self).file_view(),
                old(self).descriptor(),
                GENERATION_PID,
            ),
    {
        self.get_optional_data(GENERATION_PID)
    }

    /// The inline value of the property `pid`, decoded as a `T`; nothing
    /// where the property is absent or holds no inline value.
    fn get_optional_data<T: AAFFrom>(&mut self, pid: OMPropertyId) -> (r: Result<
        Option<T>,
        AafError,
    >)
        ensures
            final(self).file_view() == old(self).file_view(),
            final(self).descriptor() == old(self).descriptor(),
            r == optional_data::<T>(old(self).file_view(), old(self).descriptor(), pid),
    {
        match self.get_property_value(pid) {
            Some(PropertyValue::Data(b)) => {
                match T::aaf_from(b.as_slice()) {
                    Ok(value) => Ok(Some(value)),
                    Err(e) => Err(e),
                }
            },
            _ => Ok(None),
        }
    }

    /// The inline value of the property `pid`, decoded as a `T`, for a
    /// property that the object must have.
    fn get_required_data<T: AAFFrom>(&mut self, pid: OMPropertyId) -> (r: Result<T, AafError>)
        ensures
            final(self).file_view() == old(self).file_view(),
            final(self).descriptor() == old(self).descriptor(),
            r == required_data::<T>(old(self).file_view(), old(self).descriptor(), pid),
    {
        match self.get_optional_data(pid) {
            Ok(Some(value)) => Ok(value),
            Ok(None) => Err(AafError::PropertyNotFound),
            Err(e) => Err(e),
        }
    }
}

/// The header of a container.
pub struct Header {
    file: AAFFile,
    object: InterchangeObjectDescriptor,
}

impl AAFObject for Header {
    closed spec fn file_view(&self) -> FileView {
        self.file@
    }

    closed spec fn descriptor(&self) -> ObjectView {
        self.object@
    }

    fn make(file: AAFFile, object: InterchangeObjectDescriptor) -> (made: Self) {
        Header { file, object }
    }

    fn get_property_value(&mut self, pid: OMPropertyId) -> (r: Option<PropertyValue>) {
        self.file.get_value(&self.object, pid)
    }
}

impl Header {
    /// The byte order of the container.
    pub fn byte_order(&mut self) -> (r: Result<AAFUInt16, AafError>)
        ensures
            final(self).file_view() == old(self).file_view(),
            final(self).descriptor() == old(self).descriptor(),
            r == required_data::<AAFUInt16>(
                old(self).file_view(),
                old(self).descriptor(),
                HEADER_BYTE_ORDER_PID,
            ),
    {
        self.get_required_data(HEADER_BYTE_ORDER_PID)
    }

    /// The time of the last change to the container.
    pub fn last_modified(&mut self) -> (r: Result<TimeStamp, AafError>)
        ensures
            final(self).file_view() == old(self).file_view(),
            final(self).descriptor() == old(self).descriptor(),
            r == required_data::<TimeStamp>(
                old(self).file_view(),
                old(self).descriptor(),
                HEADER_LAST_MODIFIED_PID,
            ),
    {
        self.get_required_data(HEADER_LAST_MODIFIED_PID)
    }

    /// The version of the format.
    pub fn version(&mut self) -> (r: Result<VersionType, AafError>)
        ensures
            final(self).file_view() == old(self).file_view(),
            final(self).descriptor() == old(self).descriptor(),
            r == required_data::<VersionType>(
                old(self).file_view(),
                old(self).descriptor(),
                HEADER_VERSION_PID,
            ),
    {
        self.get_required_data(HEADER_VERSION_PID)
    }

    /// The version of the object model, if the header records one.
    pub fn object_model_version(&mut self) -> (r: Result<Option<AAFUInt32>, AafError>)
        ensures
            final(self).file_view() == old(self).file_view(),
            final(self).descriptor() == old(self).descriptor(),
            r == optional_data::<AAFUInt32>(
                old(self).file_view(),
                old(self).descriptor(),
                HEADER_OBJECT_MODEL_VERSION_PID,
            ),
    {
        self.get_optional_data(HEADER_OBJECT_MODEL_VERSION_PID)
    }

    /// The operational pattern, if the header records one.
    pub fn operational_pattern(&mut self) -> (r: Result<Option<Auid>, AafError>)
        ensures
            final(self).file_view() == old(self).file_view(),
            final(self).descriptor() == old(self).descriptor(),
            r == optional_data::<Auid>(
                old(self).file_view(),
                old(self).descriptor(),
                HEADER_OPERATIONAL_PATTERN_PID,
            ),
    {
        self.get_optional_data(HEADER_OPERATIONAL_PATTERN_PID)
    }

    /// Gives the container back.
    pub fn into_file(self) -> (file: AAFFile)
        ensures
            file@ == self.file_view(),
    {
        self.file
    }
}

/// The header that the value of the root object's header property leads
/// to: that value must be a single object.
pub open spec fn header_object(file: FileView) -> Result<ObjectView, ErrorView> {
    match object_at(file, "/"@) {
        Err(e) => Err(e),
        Ok(root) => match value_of(file, root, AAF_FILE_HEADER_PID) {
            Ok(ValueView::Single(object)) => Ok(object),
            Ok(_) => Err(ErrorView::FormatError),
            Err(e) => Err(e),
        },
    }
}

impl AAFFile {
    /// The header of the container, which the root object refers to.
    pub fn header(self) -> (r: Result<Header, AafError>)
        ensures
            match r {
                Ok(header) => header.file_view() == self@ && header_object(self@) == Ok::<
                    _,
                    ErrorView,
                >(header.descriptor()),
                Err(e) => header_object(self@) == Err::<ObjectView, _>(e@),
            },
    {
        let mut file = self;
        let root = file.root_object()?;
        match file.resolve(&root, AAF_FILE_HEADER_PID) {
            Ok(PropertyValue::Single(object)) => Ok(Header::make(file, object)),
            Ok(_) => Err(AafError::FormatError),
            Err(e) => Err(e),
        }
    }
}

} // verus!
