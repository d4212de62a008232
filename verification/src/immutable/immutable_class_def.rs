use vstd::prelude::*;
use crate::base::access_flags::AccessFlags;
use crate::immutable::immutable_field::ImmutableField;
use crate::immutable::immutable_method::ImmutableMethod;

verus! {

/// A class held in memory: its type, flags, supertypes, source file and members.
#[derive(Debug)]
pub struct ImmutableClassDef {
    pub type_descriptor: String,
    pub access_flags: AccessFlags,
    pub superclass: Option<String>,
    pub interfaces: Vec<String>,
    pub source_file: Option<String>,
    pub static_fields: Vec<ImmutableField>,
    pub instance_fields: Vec<ImmutableField>,
    pub direct_methods: Vec<ImmutableMethod>,
    pub virtual_methods: Vec<ImmutableMethod>,
}

/// The text that an optional string holds, if any.
pub open spec fn opt_text(o: Option<String>) -> Option<Seq<char>> {
    match o {
        Some(s) => Some(s@),
        None => None,
    }
}

/// The text that an optional `&str` holds, if any.
pub open spec fn opt_str(o: Option<&str>) -> Option<Seq<char>> {
    match o {
        Some(s) => Some(s@),
        None => None,
    }
}

impl ImmutableClassDef {
    /// A class without supertypes, source file or members.
    pub fn new(type_descriptor: &str, access_flags: AccessFlags) -> (res: Self)
        ensures
            res.type_descriptor@ == type_descriptor@,
            res.access_flags == access_flags,
            res.superclass is None,
            res.interfaces@.len() == 0,
            res.source_file is None,
            res.static_fields@.len() == 0,
            res.instance_fields@.len() == 0,
            res.direct_methods@.len() == 0,
            res.virtual_methods@.len() == 0,
    {
        ImmutableClassDef {
            type_descriptor: type_descriptor.to_owned(),
            access_flags,
            superclass: None,
            interfaces: Vec::new(),
            source_file: None,
            static_fields: Vec::new(),
            instance_fields: Vec::new(),
            direct_methods: Vec::new(),
            virtual_methods: Vec::new(),
        }
    }

    pub fn type_descriptor(&self) -> (res: &str)
        ensures
            res@ == self.type_descriptor@,
    {
        self.type_descriptor.as_str()
    }

    pub fn access_flags(&self) -> (res: AccessFlags)
        ensures
            res == self.access_flags,
    {
        self.access_flags
    }

    pub fn superclass(&self) -> (res: Option<&str>)
        ensures
            opt_str(res) == opt_text(self.superclass),
    {
        match &self.superclass {
            Some(s) => Some(s.as_str()),
            None => None,
        }
    }

    pub fn interfaces(&self) -> (res: &[String])
        ensures
            res@ == self.interfaces@,
    {
        self.interfaces.as_slice()
    }

    pub fn source_file(&self) -> (res: Option<&str>)
        ensures
            opt_str(res) == opt_text(self.source_file),
    {
        match &self.source_file {
            Some(s) => Some(s.as_str()),
            None => None,
        }
    }

    pub fn static_fields(&self) -> (res: &[ImmutableField])
        ensures
            res@ == self.static_fields@,
    {
        self.static_fields.as_slice()
    }

    pub fn instance_fields(&self) -> (res: &[ImmutableField])
        ensures
            res@ == self.instance_fields@,
    {
        self.instance_fields.as_slice()
    }

    pub fn direct_methods(&self) -> (res: &[ImmutableMethod])
        ensures
            res@ == self.direct_methods@,
    {
        self.direct_methods.as_slice()
    }

    pub fn virtual_methods(&self) -> (res: &[ImmutableMethod])
        ensures
            res@ == self.virtual_methods@,
    {
        self.virtual_methods.as_slice()
    }

    /// The first method named `name`, the direct methods searched before the virtual ones; the
    /// prototype is not compared.
    pub fn find_method(&self, name: &str, _proto: &str) -> (res: Option<&ImmutableMethod>)
        ensures
            res matches Some(m) ==> m.name@ == name@ && (exists|i: int|
                0 <= i < self.direct_methods@.len() && self.direct_methods@[i] == *m && forall|k: int|
                    0 <= k < i ==> self.direct_methods@[k].name@ != name@) || ((forall|k: int|
                0 <= k < self.direct_methods@.len() ==> self.direct_methods@[k].name@ != name@) && exists|i: int|
                0 <= i < self.virtual_methods@.len() && self.virtual_methods@[i] == *m && forall|k: int|
                    0 <= k < i ==> self.virtual_methods@[k].name@ != name@),
            res is None ==> (forall|k: int|
                0 <= k < self.direct_methods@.len() ==> self.direct_methods@[k].name@ != name@)
                && (forall|k: int| 0 <= k < self.virtual_methods@.len() ==> self.virtual_methods@[k].name@ != name@),
    {
        let mut i: usize = 0;
        while i < self.direct_methods.len()
            invariant
                i <= self.direct_methods@.len(),
                forall|k: int| 0 <= k < i ==> self.direct_methods@[k].name@ != name@,
            decreases self.direct_methods.len() - i,
        {
            if str_equal(self.direct_methods[i].name.as_str(), name) {
                return Some(&self.direct_methods[i]);
            }
            i += 1;
        }
        let mut j: usize = 0;
        while j < self.virtual_methods.len()
            invariant
                j <= self.virtual_methods@.len(),
                forall|k: int| 0 <= k < self.direct_methods@.len() ==> self.direct_methods@[k].name@ != name@,
                forall|k: int| 0 <= k < j ==> self.virtual_methods@[k].name@ != name@,
            decreases self.virtual_methods.len() - j,
        {
            if str_equal(self.virtual_methods[j].name.as_str(), name) {
                return Some(&self.virtual_methods[j]);
            }
            j += 1;
        }
        None
    }
}

/// Whether two texts are equal.
pub fn str_equal(a: &str, b: &str) -> (res: bool)
    ensures
        res == (a@ == b@),
{
    let n = a.unicode_len();
    if n != b.unicode_len() {
        return false;
    }
    let mut k: usize = 0;
    while k < n
        invariant
            n == a@.len() == b@.len(),
            k <= n,
            forall|j: int| 0 <= j < k ==> a@[j] == b@[j],
        decreases n - k,
    {
        if a.get_char(k) != b.get_char(k) {
            return false;
        }
        k += 1;
    }
    assert(a@ =~= b@);
    true
}

} // verus!
