//! Names of the ServiceInfo modules (FSIMs) the device knows. A module is
//! written on the wire as its name, a text string.

use vstd::prelude::*;

use crate::text::str_eq;

verus! {

/// Modules defined by the FDO specification itself.
#[derive(Debug, Clone, PartialEq, Eq, Structural, Hash)]
#[non_exhaustive]
pub enum StandardServiceInfoModule {
    DevMod,
}

/// Modules in the `fdo.` namespace.
#[derive(Debug, Clone, PartialEq, Eq, Structural, Hash)]
#[non_exhaustive]
pub enum FdoServiceInfoModule {
    Bmo,
}

/// A ServiceInfo module, known or not.
#[derive(Debug, Clone, Hash)]
#[non_exhaustive]
pub enum ServiceInfoModule {
    Standard(StandardServiceInfoModule),
    Fdo(FdoServiceInfoModule),
    Unsupported(String),
}

/// The mathematical value of a module: known modules by kind, others by
/// their name.
pub enum ServiceInfoModuleView {
    Standard(StandardServiceInfoModule),
    Fdo(FdoServiceInfoModule),
    Unsupported(Seq<char>),
}

impl View for ServiceInfoModule {
    type V = ServiceInfoModuleView;

    open spec fn view(&self) -> ServiceInfoModuleView {
        match self {
            ServiceInfoModule::Standard(m) => ServiceInfoModuleView::Standard(*m),
            ServiceInfoModule::Fdo(m) => ServiceInfoModuleView::Fdo(*m),
            ServiceInfoModule::Unsupported(s) => ServiceInfoModuleView::Unsupported(s@),
        }
    }
}

pub open spec fn standard_module_name(m: StandardServiceInfoModule) -> Seq<char> {
    match m {
        StandardServiceInfoModule::DevMod => "devmod"@,
    }
}

pub open spec fn fdo_module_name(m: FdoServiceInfoModule) -> Seq<char> {
    match m {
        FdoServiceInfoModule::Bmo => "bmo"@,
    }
}

/// The text a module is written as.
pub open spec fn module_name(m: ServiceInfoModuleView) -> Seq<char> {
    match m {
        ServiceInfoModuleView::Standard(s) => standard_module_name(s),
        ServiceInfoModuleView::Fdo(f) => "fdo."@ + fdo_module_name(f),
        ServiceInfoModuleView::Unsupported(s) => s,
    }
}

/// The module a text names.
pub open spec fn parse_module_name(s: Seq<char>) -> ServiceInfoModuleView {
    if s == "devmod"@ {
        ServiceInfoModuleView::Standard(StandardServiceInfoModule::DevMod)
    } else if s == "fdo.bmo"@ {
        ServiceInfoModuleView::Fdo(FdoServiceInfoModule::Bmo)
    } else {
        ServiceInfoModuleView::Unsupported(s)
    }
}

/// A module value that parsing can produce: an unsupported module never
/// carries the name of a known one.
pub open spec fn module_view_is_canonical(m: ServiceInfoModuleView) -> bool {
    match m {
        ServiceInfoModuleView::Unsupported(s) => s != "devmod"@ && s != "fdo.bmo"@,
        _ => true,
    }
}

impl StandardServiceInfoModule {
    /// The module's name.
    pub fn to_string(&self) -> (r: String)
        ensures
            r@ == standard_module_name(*self),
    {
        match self {
            StandardServiceInfoModule::DevMod => String::from_str("devmod"),
        }
    }
}

impl FdoServiceInfoModule {
    /// The module's name inside the `fdo.` namespace.
    pub fn to_string(&self) -> (r: String)
        ensures
            r@ == fdo_module_name(*self),
    {
        match self {
            FdoServiceInfoModule::Bmo => String::from_str("bmo"),
        }
    }
}

impl ServiceInfoModule {
    /// The module's full name, as it is written on the wire.
    pub fn to_string(&self) -> (r: String)
        ensures
            r@ == module_name(self@),
    {
        match self {
            ServiceInfoModule::Standard(m) => m.to_string(),
            ServiceInfoModule::Fdo(m) => {
                let mut s = String::from_str("fdo.");
                let name = m.to_string();
                s.append(name.as_str());
                s
            },
            ServiceInfoModule::Unsupported(other) => other.clone(),
        }
    }

    /// Parse a module name. Every text names a module; those that are not
    /// known are kept as unsupported.
    pub fn from_str(s: &str) -> (r: Result<ServiceInfoModule, crate::Error>)
        ensures
            r matches Ok(m) && m@ == parse_module_name(s@),
    {
        if str_eq(s, "devmod") {
            Ok(ServiceInfoModule::Standard(StandardServiceInfoModule::DevMod))
        } else if str_eq(s, "fdo.bmo") {
            Ok(ServiceInfoModule::Fdo(FdoServiceInfoModule::Bmo))
        } else {
            Ok(ServiceInfoModule::Unsupported(String::from_str(s)))
        }
    }

    /// A copy of the module.
    pub fn duplicate(&self) -> (r: ServiceInfoModule)
        ensures
            r@ == self@,
    {
        match self {
            ServiceInfoModule::Standard(StandardServiceInfoModule::DevMod) => ServiceInfoModule::Standard(
                StandardServiceInfoModule::DevMod,
            ),
            ServiceInfoModule::Fdo(FdoServiceInfoModule::Bmo) => ServiceInfoModule::Fdo(
                FdoServiceInfoModule::Bmo,
            ),
            ServiceInfoModule::Unsupported(s) => ServiceInfoModule::Unsupported(s.clone()),
        }
    }

    /// Whether two modules are the same module.
    pub fn same_module(&self, other: &ServiceInfoModule) -> (r: bool)
        ensures
            r == (self@ == other@),
    {
        match (self, other) {
            (ServiceInfoModule::Standard(a), ServiceInfoModule::Standard(b)) => a == b,
            (ServiceInfoModule::Fdo(a), ServiceInfoModule::Fdo(b)) => a == b,
            (ServiceInfoModule::Unsupported(a), ServiceInfoModule::Unsupported(b)) => str_eq(
                a.as_str(),
                b.as_str(),
            ),
            _ => false,
        }
    }
}

impl From<StandardServiceInfoModule> for ServiceInfoModule {
    fn from(module: StandardServiceInfoModule) -> (r: ServiceInfoModule) {
        ServiceInfoModule::Standard(module)
    }
}

impl From<FdoServiceInfoModule> for ServiceInfoModule {
    fn from(module: FdoServiceInfoModule) -> (r: ServiceInfoModule) {
        ServiceInfoModule::Fdo(module)
    }
}


impl vstd::std_specs::convert::FromSpecImpl<StandardServiceInfoModule> for ServiceInfoModule {
    open spec fn obeys_from_spec() -> bool {
        true
    }

    open spec fn from_spec(v: StandardServiceInfoModule) -> ServiceInfoModule {
        ServiceInfoModule::Standard(v)
    }
}

impl vstd::std_specs::convert::FromSpecImpl<FdoServiceInfoModule> for ServiceInfoModule {
    open spec fn obeys_from_spec() -> bool {
        true
    }

    open spec fn from_spec(v: FdoServiceInfoModule) -> ServiceInfoModule {
        ServiceInfoModule::Fdo(v)
    }
}

/// Writing a module's name and parsing it back gives the same module, for
/// every module parsing can produce; and parsing any text then writing the
/// module gives the text back.
pub proof fn lemma_module_name_roundtrip(m: ServiceInfoModuleView, s: Seq<char>)
    requires
        module_view_is_canonical(m),
    ensures
        parse_module_name(module_name(m)) == m,
        module_name(parse_module_name(s)) == s,
        module_view_is_canonical(parse_module_name(s)),
{
    reveal_strlit("devmod");
    reveal_strlit("fdo.bmo");
    reveal_strlit("fdo.");
    reveal_strlit("bmo");
    match m {
        ServiceInfoModuleView::Fdo(f) => {
            assert(module_name(m) =~= "fdo.bmo"@);
        },
        _ => {},
    }
}

} // verus!
