//! The request for a Vulkan instance: the extensions and layers a caller
//! wants, their validation against what the runtime offers, and the errors
//! that building an instance can end in.

use crate::names::{
    all_offered, clone_names, lemma_missing_empty_iff_all_offered, missing_names, missing_of,
    name_views,
};
use vstd::prelude::*;
use vstd::string::StringExecFns;

verus! {

/// The name of the validation layer.
///
/// This may be passed into [`InstanceBuilder::layer`] to enable validation
/// layers. It should not be used in production: validation layers are not
/// present on every system and they add overhead.
pub const VALIDATION_LAYER_NAME: &'static str = "VK_LAYER_KHRONOS_validation";

/// The native result code for an exhausted host memory.
pub const ERROR_OUT_OF_HOST_MEMORY: i32 = -1;

/// The native result code for an exhausted device memory.
pub const ERROR_OUT_OF_DEVICE_MEMORY: i32 = -2;

/// The names joined by a comma and a space.
pub open spec fn joined(names: Seq<Seq<char>>) -> Seq<char>
    decreases names.len(),
{
    if names.len() == 0 {
        Seq::empty()
    } else if names.len() == 1 {
        names[0]
    } else {
        joined(names.drop_last()) + ", "@ + names.last()
    }
}

/// One line of the message: the heading, the names in brackets, a space and
/// a line break. Nothing at all where there is no name.
pub open spec fn listing(heading: Seq<char>, names: Seq<Seq<char>>) -> Seq<char> {
    if names.len() == 0 {
        Seq::empty()
    } else {
        heading + joined(names) + ") \n"@
    }
}

/// The message for the given missing extensions and layers.
pub open spec fn message_of(extensions: Seq<Seq<char>>, layers: Seq<Seq<char>>) -> Seq<char> {
    listing("instance extensions not present: ("@, extensions) + listing(
        "instance layers not present: ("@,
        layers,
    )
}

fn join_names(names: &Vec<String>) -> (text: String)
    ensures
        text@ == joined(name_views(names@)),
{
    let mut text = String::new();
    let mut i: usize = 0;
    while i < names.len()
        invariant
            i <= names.len(),
            text@ == joined(name_views(names@).take(i as int)),
        decreases names.len() - i,
    {
        let ghost all = name_views(names@);
        proof {
            assert(all.take(i + 1).drop_last() =~= all.take(i as int));
            assert(all.take(i + 1).last() == names@[i as int]@);
        }
        if i > 0 {
            text.append(", ");
        }
        text.append(names[i].as_str());
        assert(text@ =~= joined(all.take(i + 1)));
        i += 1;
    }
    proof {
        assert(name_views(names@).take(i as int) =~= name_views(names@));
    }
    text
}

fn append_listing(text: &mut String, heading: &str, names: &Vec<String>)
    ensures
        final(text)@ == old(text)@ + listing(heading@, name_views(names@)),
{
    if names.len() > 0 {
        let list = join_names(names);
        text.append(heading);
        text.append(list.as_str());
        text.append(") \n");
        assert(final(text)@ =~= old(text)@ + listing(heading@, name_views(names@)));
    } else {
        assert(text@ =~= old(text)@ + listing(heading@, name_views(names@)));
    }
}

/// Some requested extensions and or layers were not available when creating
/// an instance.
///
/// A value of this type names at least one extension or layer.
#[derive(Debug)]
pub struct MissingExtensionsOrLayers {
    missing_extensions: Vec<String>,
    missing_layers: Vec<String>,
}

impl MissingExtensionsOrLayers {
    #[verifier::type_invariant]
    spec fn names_something(&self) -> bool {
        self.missing_extensions@.len() > 0 || self.missing_layers@.len() > 0
    }

    /// The missing extensions, in the order in which they were requested.
    pub closed spec fn extension_names(&self) -> Seq<Seq<char>> {
        name_views(self.missing_extensions@)
    }

    /// The missing layers, in the order in which they were requested.
    pub closed spec fn layer_names(&self) -> Seq<Seq<char>> {
        name_views(self.missing_layers@)
    }

    /// Returns the requested extensions that were not present when
    /// constructing an instance, or `None` where every extension was present.
    pub fn missing_extensions(&self) -> (missing: Option<Vec<String>>)
        ensures
            missing is None <==> self.extension_names().len() == 0,
            missing is Some ==> name_views(missing.unwrap()@) == self.extension_names(),
            missing is None ==> self.layer_names().len() > 0,
    {
        proof {
            use_type_invariant(self);
        }
        if self.missing_extensions.is_empty() {
            None
        } else {
            Some(clone_names(&self.missing_extensions))
        }
    }

    /// Returns the requested layers that were not present when constructing
    /// an instance, or `None` where every layer was present.
    pub fn missing_layers(&self) -> (missing: Option<Vec<String>>)
        ensures
            missing is None <==> self.layer_names().len() == 0,
            missing is Some ==> name_views(missing.unwrap()@) == self.layer_names(),
            missing is None ==> self.extension_names().len() > 0,
    {
        proof {
            use_type_invariant(self);
        }
        if self.missing_layers.is_empty() {
            None
        } else {
            Some(clone_names(&self.missing_layers))
        }
    }

    /// The message for a person: one line for the missing extensions and one
    /// for the missing layers, each naming every missing name and left out
    /// where nothing of its kind is missing.
    pub fn message(&self) -> (text: String)
        ensures
            text@ == message_of(self.extension_names(), self.layer_names()),
    {
        let mut text = String::new();
        append_listing(&mut text, "instance extensions not present: (", &self.missing_extensions);
        append_listing(&mut text, "instance layers not present: (", &self.missing_layers);
        assert(text@ =~= message_of(self.extension_names(), self.layer_names()));
        text
    }
}

/// Why the runtime could not list its extensions or its layers: the native
/// result code of the failed query, whatever it is.
#[derive(Clone, Copy, Debug, PartialEq, Eq, Structural)]
pub struct EnumerationError {
    pub code: i32,
}

impl EnumerationError {
    /// The error of a query that failed with the given native result code.
    pub fn new(code: i32) -> (err: EnumerationError)
        ensures
            err.code == code,
    {
        EnumerationError { code }
    }
}

/// Why an instance could not be built.
#[derive(Debug)]
pub enum InstanceError {
    /// The host or the device is out of memory.
    OutOfMemory,
    /// Some requested extensions or layers are not offered by the runtime.
    MissingExtensionsOrLayers(MissingExtensionsOrLayers),
    /// Any other native failure, with its result code.
    Other(i32),
}

/// The error that building an instance ends in on a native result code: out
/// of memory for the two codes of exhausted memory, else the code itself.
pub open spec fn error_of_code(code: i32) -> InstanceError {
    if code == ERROR_OUT_OF_HOST_MEMORY || code == ERROR_OUT_OF_DEVICE_MEMORY {
        InstanceError::OutOfMemory
    } else {
        InstanceError::Other(code)
    }
}

impl From<i32> for InstanceError {
    /// The error for a native result code.
    fn from(code: i32) -> (err: Self) {
        if code == ERROR_OUT_OF_HOST_MEMORY || code == ERROR_OUT_OF_DEVICE_MEMORY {
            InstanceError::OutOfMemory
        } else {
            InstanceError::Other(code)
        }
    }
}

impl vstd::std_specs::convert::FromSpecImpl<i32> for InstanceError {
    open spec fn obeys_from_spec() -> bool {
        true
    }

    open spec fn from_spec(code: i32) -> Self {
        error_of_code(code)
    }
}

impl From<EnumerationError> for InstanceError {
    /// The error of a build whose query for extensions or layers failed.
    fn from(err: EnumerationError) -> (wrapped: Self) {
        InstanceError::from(err.code)
    }
}

impl vstd::std_specs::convert::FromSpecImpl<EnumerationError> for InstanceError {
    open spec fn obeys_from_spec() -> bool {
        true
    }

    open spec fn from_spec(err: EnumerationError) -> Self {
        error_of_code(err.code)
    }
}

impl From<MissingExtensionsOrLayers> for InstanceError {
    fn from(err: MissingExtensionsOrLayers) -> (wrapped: Self) {
        InstanceError::MissingExtensionsOrLayers(err)
    }
}

impl vstd::std_specs::convert::FromSpecImpl<MissingExtensionsOrLayers> for InstanceError {
    open spec fn obeys_from_spec() -> bool {
        true
    }

    open spec fn from_spec(err: MissingExtensionsOrLayers) -> Self {
        InstanceError::MissingExtensionsOrLayers(err)
    }
}

/// A builder used to declare the extensions and layers of an instance.
#[derive(Debug)]
pub struct InstanceBuilder {
    enable_extensions: Vec<String>,
    enable_layers: Vec<String>,
}

impl InstanceBuilder {
    /// The requested extensions, in the order of the requests.
    pub closed spec fn extension_names(&self) -> Seq<Seq<char>> {
        name_views(self.enable_extensions@)
    }

    /// The requested layers, in the order of the requests.
    pub closed spec fn layer_names(&self) -> Seq<Seq<char>> {
        name_views(self.enable_layers@)
    }

    /// A builder that requests nothing.
    pub fn new() -> (builder: InstanceBuilder)
        ensures
            builder.extension_names() == Seq::<Seq<char>>::empty(),
            builder.layer_names() == Seq::<Seq<char>>::empty(),
    {
        let builder = InstanceBuilder { enable_extensions: Vec::new(), enable_layers: Vec::new() };
        assert(builder.extension_names() =~= Seq::<Seq<char>>::empty());
        assert(builder.layer_names() =~= Seq::<Seq<char>>::empty());
        builder
    }

    /// Adds an instance extension to be requested when creating an instance.
    ///
    /// The extension must be supported by the Vulkan runtime or else
    /// validation fails. A name added twice is requested twice.
    pub fn extension(self, extension: &str) -> (builder: InstanceBuilder)
        ensures
            builder.extension_names() == self.extension_names().push(extension@),
            builder.layer_names() == self.layer_names(),
    {
        let mut builder = self;
        builder.enable_extensions.push(extension.to_owned());
        assert(builder.extension_names() =~= self.extension_names().push(extension@));
        builder
    }

    /// Adds an instance layer to be requested when creating an instance.
    ///
    /// The layer must be supported by the Vulkan runtime or else validation
    /// fails. A name added twice is requested twice.
    pub fn layer(self, layer: &str) -> (builder: InstanceBuilder)
        ensures
            builder.layer_names() == self.layer_names().push(layer@),
            builder.extension_names() == self.extension_names(),
    {
        let mut builder = self;
        builder.enable_layers.push(layer.to_owned());
        assert(builder.layer_names() =~= self.layer_names().push(layer@));
        builder
    }

    /// The requested extensions.
    pub fn extensions(&self) -> (names: &Vec<String>)
        ensures
            name_views(names@) == self.extension_names(),
    {
        &self.enable_extensions
    }

    /// The requested layers.
    pub fn layers(&self) -> (names: &Vec<String>)
        ensures
            name_views(names@) == self.layer_names(),
    {
        &self.enable_layers
    }

    /// Checks the request against the extensions and layers that the runtime
    /// offers.
    ///
    /// Succeeds exactly when every requested name is offered. Otherwise the
    /// error carries every missing extension and every missing layer, each
    /// list in request order with duplicates kept; the list of a kind of
    /// which nothing is missing is empty.
    pub fn validate(
        &self,
        supported_extensions: &Vec<String>,
        supported_layers: &Vec<String>,
    ) -> (outcome: Result<(), InstanceError>)
        ensures
            outcome is Ok <==> all_offered(
                self.extension_names(),
                name_views(supported_extensions@),
            ) && all_offered(self.layer_names(), name_views(supported_layers@)),
            outcome matches Err(err) ==> err matches InstanceError::MissingExtensionsOrLayers(
                missing,
            ) && missing.extension_names() == missing_of(
                self.extension_names(),
                name_views(supported_extensions@),
            ) && missing.layer_names() == missing_of(
                self.layer_names(),
                name_views(supported_layers@),
            ),
    {
        let missing_extensions = missing_names(&self.enable_extensions, supported_extensions);
        let missing_layers = missing_names(&self.enable_layers, supported_layers);
        proof {
            lemma_missing_empty_iff_all_offered(
                self.extension_names(),
                name_views(supported_extensions@),
            );
            lemma_missing_empty_iff_all_offered(self.layer_names(), name_views(supported_layers@));
        }
        if !missing_extensions.is_empty() || !missing_layers.is_empty() {
            let missing = MissingExtensionsOrLayers { missing_extensions, missing_layers };
            Err(InstanceError::from(missing))
        } else {
            Ok(())
        }
    }
}

} // verus!
