//! A Minecraft version, read through accessors.
use vstd::prelude::*;
use crate::version_metadata as meta;
use crate::version_metadata::{last_index_of, JavaVersion, MinecraftVersionMap};

verus! {

/// A Minecraft version chosen for generation.
#[derive(Clone, Debug)]
pub struct MinecraftVersion {
    inner: meta::MinecraftVersion,
}

impl MinecraftVersion {
    /// The metadata this version reads from.
    pub closed spec fn meta(&self) -> meta::MinecraftVersion {
        self.inner
    }

    pub fn new(inner: meta::MinecraftVersion) -> (r: Self)
        ensures
            r.meta() == inner,
    {
        MinecraftVersion { inner }
    }

    /// The latest version of a version map.
    pub fn latest(map: &MinecraftVersionMap) -> (r: Self)
        requires
            map.wf(),
        ensures
            r.meta() == map.source().versions@[last_index_of(
                map.source().versions@,
                map.source().latest_version@,
            )],
    {
        Self::new(map.latest_version().duplicate())
    }

    /// The version's name, such as `1.20.4`.
    pub fn version(&self) -> (r: &str)
        ensures
            r@ == self.meta().version@,
    {
        self.inner.version.as_str()
    }

    /// The Java major version number the metadata names.
    pub fn meta_java_version(&self) -> (r: u32)
        ensures
            r == self.meta().java_version,
    {
        self.inner.java_version
    }

    /// The Java release the version runs on.
    pub fn java_version(&self) -> (r: JavaVersion)
        requires
            self.meta().java_version >= 8,
        ensures
            r.major() == self.meta().java_version,
            r == if self.meta().java_version == 8 {
                JavaVersion::Java8
            } else {
                JavaVersion::Java9OrNewer(self.meta().java_version)
            },
    {
        JavaVersion::from_major(self.inner.java_version).unwrap()
    }

    pub fn architectury_package(&self) -> (r: &str)
        ensures
            r@ == self.meta().architectury.package@,
    {
        self.inner.architectury.package.as_str()
    }

    pub fn architectury_maven_group(&self) -> (r: &str)
        ensures
            r@ == self.meta().architectury.maven_group@,
    {
        self.inner.architectury.maven_group.as_str()
    }

    /// The Fabric API branch: the metadata's override, else the version name.
    pub fn fabric_api_branch(&self) -> (r: &str)
        ensures
            r@ == match self.meta().fabric.fabric_api_branch {
                Some(b) => b@,
                None => self.meta().version@,
            },
    {
        match &self.inner.fabric.fabric_api_branch {
            Some(b) => b.as_str(),
            None => self.inner.version.as_str(),
        }
    }

    pub fn fabric_api_mod_id(&self) -> (r: &str)
        ensures
            r@ == self.meta().fabric.fabric_api_mod_id@,
    {
        self.inner.fabric.fabric_api_mod_id.as_str()
    }

    pub fn forge_major_version(&self) -> (r: Option<u32>)
        ensures
            r == match self.meta().forge {
                Some(f) => Some(f.major_version),
                None => None::<u32>,
            },
    {
        match &self.inner.forge {
            Some(forge) => Some(forge.major_version),
            None => None,
        }
    }

    pub fn architectury_api_version(&self) -> (r: &str)
        ensures
            r@ == self.meta().architectury.api_version@,
    {
        self.inner.architectury.api_version.as_str()
    }

    pub fn neoforge_loader_major(&self) -> (r: Option<&str>)
        ensures
            match self.meta().neoforge {
                Some(n) => r is Some && r->Some_0@ == n.loader_major_version@,
                None => r is None,
            },
    {
        match &self.inner.neoforge {
            Some(neoforge) => Some(neoforge.loader_major_version.as_str()),
            None => None,
        }
    }

    pub fn neoforge_major(&self) -> (r: Option<&str>)
        ensures
            match self.meta().neoforge {
                Some(n) => r is Some && r->Some_0@ == n.neoforge_major_version@,
                None => r is None,
            },
    {
        match &self.inner.neoforge {
            Some(neoforge) => Some(neoforge.neoforge_major_version.as_str()),
            None => None,
        }
    }

    pub fn neoforge_yarn_patch_version(&self) -> (r: Option<&str>)
        ensures
            match self.meta().neoforge {
                Some(n) => match n.yarn_patch_version {
                    Some(y) => r is Some && r->Some_0@ == y@,
                    None => r is None,
                },
                None => r is None,
            },
    {
        match &self.inner.neoforge {
            Some(neoforge) => match &neoforge.yarn_patch_version {
                Some(y) => Some(y.as_str()),
                None => None,
            },
            None => None,
        }
    }

    pub fn forge_pack_version(&self) -> (r: Option<u32>)
        ensures
            r == match self.meta().forge {
                Some(f) => Some(f.pack_version),
                None => None::<u32>,
            },
    {
        match &self.inner.forge {
            Some(forge) => Some(forge.pack_version),
            None => None,
        }
    }

    /// The data pack format's key and value, where Forge names them.
    pub fn forge_server_pack_version(&self) -> (r: Option<(&str, &str)>)
        ensures
            match self.meta().forge {
                Some(f) => match f.server_pack_version {
                    Some(p) => r is Some && r->Some_0.0@ == p.0@ && r->Some_0.1@ == p.1@,
                    None => r is None,
                },
                None => r is None,
            },
    {
        match &self.inner.forge {
            Some(forge) => match &forge.server_pack_version {
                Some((key, value)) => Some((key.as_str(), value.as_str())),
                None => None,
            },
            None => None,
        }
    }

    /// Whether Architectury API supports Forge on this version: Forge must
    /// be available with a major version below 50.
    pub fn arch_api_supports_forge(&self) -> (r: bool)
        ensures
            r == match self.meta().forge {
                Some(f) => f.major_version < 50,
                None => false,
            },
    {
        match &self.inner.forge {
            Some(forge) => forge.major_version < 50,
            None => false,
        }
    }
}

} // verus!
