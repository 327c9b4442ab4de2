//! What the pass emits for a class: the metadata binding, the generated
//! constructor and the registry entry.

use vstd::prelude::*;

verus! {

/// Who declared a class.
#[derive(Clone, Copy, Debug, PartialEq, Eq, Structural)]
pub enum Declarer {
    /// The class is built into the host.
    EngineDomain,
    /// The class was written by the user.
    UserDomain,
}

/// How the host owns the instances of a class.
#[derive(Clone, Copy, Debug, PartialEq, Eq, Structural)]
pub enum MemoryMode {
    /// As the binding of the base type says.
    InheritedFromBase,
}

/// The type-metadata binding of a class.
#[derive(Debug, PartialEq, Eq)]
pub struct MetadataBinding {
    pub class_name: String,
    pub base: String,
    pub declarer: Declarer,
    pub mem: MemoryMode,
}

/// Mathematical model of a [`MetadataBinding`].
pub struct MetadataBindingView {
    pub class_name: Seq<char>,
    pub base: Seq<char>,
    pub declarer: Declarer,
    pub mem: MemoryMode,
}

impl View for MetadataBinding {
    type V = MetadataBindingView;

    open spec fn view(&self) -> MetadataBindingView {
        MetadataBindingView {
            class_name: self.class_name@,
            base: self.base@,
            declarer: self.declarer,
            mem: self.mem,
        }
    }
}

/// The value that a generated constructor gives to a field.
#[derive(Clone, Copy, Debug, PartialEq, Eq, Structural)]
pub enum InitValue {
    /// The default value of the field's type.
    Default,
    /// The handle to the base object that the constructor was given.
    BaseHandle,
}

/// One field of the value that a generated constructor builds.
#[derive(Debug, PartialEq, Eq)]
pub struct FieldInit {
    pub name: String,
    pub value: InitValue,
}

/// Mathematical model of a [`FieldInit`].
pub struct FieldInitView {
    pub name: Seq<char>,
    pub value: InitValue,
}

impl View for FieldInit {
    type V = FieldInitView;

    open spec fn view(&self) -> FieldInitView {
        FieldInitView { name: self.name@, value: self.value }
    }
}

/// The initializers of `inits`, each by its model.
pub open spec fn inits_of(inits: Seq<FieldInit>) -> Seq<FieldInitView> {
    inits.map_values(|i: FieldInit| i@)
}

/// A generated constructor: it takes the handle to the base object and
/// builds the class from the initializers, in their order.
#[derive(Debug, PartialEq, Eq)]
pub struct GeneratedInit {
    pub class_name: String,
    pub inits: Vec<FieldInit>,
}

/// Mathematical model of a [`GeneratedInit`].
pub struct GeneratedInitView {
    pub class_name: Seq<char>,
    pub inits: Seq<FieldInitView>,
}

impl View for GeneratedInit {
    type V = GeneratedInitView;

    open spec fn view(&self) -> GeneratedInitView {
        GeneratedInitView { class_name: self.class_name@, inits: inits_of(self.inits@) }
    }
}

impl GeneratedInitView {
    /// Some field takes the handle to the base object.
    pub open spec fn stores_base_handle(self) -> bool {
        exists|i: int|
            0 <= i < self.inits.len() && (#[trigger] self.inits[i]).value
                == InitValue::BaseHandle
    }
}

impl GeneratedInit {
    /// Whether some field takes the handle to the base object. A constructor
    /// of which this is false drops the handle that it is given.
    pub fn stores_base_handle(&self) -> (r: bool)
        ensures
            r == self@.stores_base_handle(),
    {
        let mut i: usize = 0;
        while i < self.inits.len()
            invariant
                i <= self.inits.len(),
                forall|k: int|
                    0 <= k < i ==> (#[trigger] self@.inits[k]).value != InitValue::BaseHandle,
            decreases self.inits.len() - i,
        {
            assert(self@.inits[i as int] == self.inits@[i as int]@);
            if self.inits[i].value == InitValue::BaseHandle {
                return true;
            }
            i += 1;
        }
        false
    }
}

/// The callbacks that the host offers for every class.
#[derive(Clone, Copy, Debug, PartialEq, Eq, Structural)]
pub enum Callback {
    /// Builds an instance through the generated constructor.
    Create,
    /// Releases an instance.
    Free,
}

/// A reference to the callback `callback` of the class `class_name`.
#[derive(Debug, PartialEq, Eq)]
pub struct FnRef {
    pub callback: Callback,
    pub class_name: String,
}

/// Mathematical model of a [`FnRef`].
pub struct FnRefView {
    pub callback: Callback,
    pub class_name: Seq<char>,
}

impl View for FnRef {
    type V = FnRefView;

    open spec fn view(&self) -> FnRefView {
        FnRefView { callback: self.callback, class_name: self.class_name@ }
    }
}

impl Clone for FnRef {
    fn clone(&self) -> (r: Self)
        ensures
            r@ == self@,
    {
        FnRef { callback: self.callback, class_name: self.class_name.clone() }
    }
}

/// The entry that a class contributes to the class registry.
#[derive(Debug, PartialEq, Eq)]
pub struct ClassPlugin {
    pub class_name: String,
    pub base_class_name: String,
    /// The constructor callback; `None` where the pass wrote no constructor.
    pub generated_create_fn: Option<FnRef>,
    pub free_fn: FnRef,
}

/// Mathematical model of a [`ClassPlugin`].
pub struct ClassPluginView {
    pub class_name: Seq<char>,
    pub base_class_name: Seq<char>,
    pub generated_create_fn: Option<FnRefView>,
    pub free_fn: FnRefView,
}

impl View for ClassPlugin {
    type V = ClassPluginView;

    open spec fn view(&self) -> ClassPluginView {
        ClassPluginView {
            class_name: self.class_name@,
            base_class_name: self.base_class_name@,
            generated_create_fn: match self.generated_create_fn {
                Some(f) => Some(f@),
                None => None,
            },
            free_fn: self.free_fn@,
        }
    }
}

impl Clone for ClassPlugin {
    fn clone(&self) -> (r: Self)
        ensures
            r@ == self@,
    {
        ClassPlugin {
            class_name: self.class_name.clone(),
            base_class_name: self.base_class_name.clone(),
            generated_create_fn: match &self.generated_create_fn {
                Some(f) => Some(f.clone()),
                None => None,
            },
            free_fn: self.free_fn.clone(),
        }
    }
}

/// All that the pass emits for one class.
#[derive(Debug, PartialEq, Eq)]
pub struct ClassOutput {
    pub metadata_binding: MetadataBinding,
    /// The constructor, where the class asked for one.
    pub generated_constructor: Option<GeneratedInit>,
    pub registry_entry: ClassPlugin,
    /// The name of the check that the base type is a class of the host.
    pub inherits_macro: String,
}

/// Mathematical model of a [`ClassOutput`].
pub struct ClassOutputView {
    pub metadata_binding: MetadataBindingView,
    pub generated_constructor: Option<GeneratedInitView>,
    pub registry_entry: ClassPluginView,
    pub inherits_macro: Seq<char>,
}

impl View for ClassOutput {
    type V = ClassOutputView;

    open spec fn view(&self) -> ClassOutputView {
        ClassOutputView {
            metadata_binding: self.metadata_binding@,
            generated_constructor: match self.generated_constructor {
                Some(c) => Some(c@),
                None => None,
            },
            registry_entry: self.registry_entry@,
            inherits_macro: self.inherits_macro@,
        }
    }
}

} // verus!
