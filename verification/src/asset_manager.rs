use vstd::prelude::*;
use crate::error::EngineError;
use crate::resource::{GlId, Payload, Ressource, Shader, Texture};
use crate::seq_facts;

verus! {

/// What a name stands for: the place of its payload in the storage and the
/// renderer's handle, once there is one.
#[derive(Debug, Clone, Copy, PartialEq, Eq)]
pub struct Asset {
    pub indice: usize,
    pub gl_id: GlId,
}

impl Asset {
    /// An asset at a place of the storage, with the renderer's handle if it
    /// has one.
    pub fn new(indice: usize, gl_id: GlId) -> (asset: Self)
        ensures
            asset.indice == indice,
            asset.gl_id == gl_id,
    {
        Asset { indice, gl_id }
    }
}

/// The payloads, one slot after the other.
pub struct AssetStorage {
    data: Vec<Payload>,
}

impl View for AssetStorage {
    type V = Seq<Payload>;

    closed spec fn view(&self) -> Seq<Payload> {
        self.data@
    }
}

/// The registered assets as a mathematical value: name, payload and
/// renderer handle of each slot, in the order of registration.
pub struct Assets {
    pub names: Seq<Seq<char>>,
    pub payloads: Seq<Payload>,
    pub gl_ids: Seq<GlId>,
}

impl Assets {
    /// Every slot has a name, a payload and a handle, and no name occurs
    /// twice.
    pub open spec fn valid(self) -> bool {
        &&& self.names.len() == self.payloads.len()
        &&& self.names.len() == self.gl_ids.len()
        &&& self.names.no_duplicates()
    }

    /// Whether a name is registered.
    pub open spec fn registered(self, name: Seq<char>) -> bool {
        self.names.contains(name)
    }

    /// The slot of a registered name.
    pub open spec fn slot(self, name: Seq<char>) -> int {
        self.names.index_of(name)
    }

    /// The payload of a registered name.
    pub open spec fn payload(self, name: Seq<char>) -> Payload {
        self.payloads[self.slot(name)]
    }

    /// The texture of a registered name that holds one.
    pub open spec fn texture(self, name: Seq<char>) -> Texture {
        self.payload(name)->Texture_0
    }

    /// The renderer handle of a registered name.
    pub open spec fn gl_id(self, name: Seq<char>) -> GlId {
        self.gl_ids[self.slot(name)]
    }

    /// A name registered for a payload: a new slot at the end, without a
    /// renderer handle; nothing changes where the name is registered.
    pub open spec fn register(self, name: Seq<char>, payload: Payload) -> Assets {
        if self.registered(name) {
            self
        } else {
            Assets {
                names: self.names.push(name),
                payloads: self.payloads.push(payload),
                gl_ids: self.gl_ids.push(None),
            }
        }
    }

    /// A registered name taken away with its slot; the slots behind it move
    /// one place forward.
    pub open spec fn unregister(self, name: Seq<char>) -> Assets {
        Assets {
            names: self.names.remove(self.slot(name)),
            payloads: self.payloads.remove(self.slot(name)),
            gl_ids: self.gl_ids.remove(self.slot(name)),
        }
    }

    /// The assets once the asset of a registered name was sent to the
    /// renderer, where the renderer answers `id` if it is asked: an asset
    /// that has a handle keeps it.
    pub open spec fn materialized(self, name: Seq<char>, id: u32) -> Assets {
        if self.gl_id(name) is Some {
            self
        } else {
            self.with_gl_id(name, Some(id))
        }
    }

    /// The handle of a registered name once its asset was sent to the
    /// renderer, where the renderer answers `id` if it is asked.
    pub open spec fn handle(self, name: Seq<char>, id: u32) -> u32 {
        match self.gl_id(name) {
            Some(known) => known,
            None => id,
        }
    }

    /// The renderer handle of a registered name replaced.
    pub open spec fn with_gl_id(self, name: Seq<char>, gl_id: GlId) -> Assets {
        Assets {
            names: self.names,
            payloads: self.payloads,
            gl_ids: self.gl_ids.update(self.slot(name), gl_id),
        }
    }
}

/// The names as sequences of characters.
pub open spec fn name_views(names: Seq<String>) -> Seq<Seq<char>> {
    names.map_values(|name: String| name@)
}

/// Names mapped to assets, and the storage that holds their payloads.
pub struct AssetManager {
    storage: AssetStorage,
    names: Vec<String>,
    gl_ids: Vec<GlId>,
}

impl View for AssetManager {
    type V = Assets;

    closed spec fn view(&self) -> Assets {
        Assets { names: name_views(self.names@), payloads: self.storage@, gl_ids: self.gl_ids@ }
    }
}

impl AssetManager {
    #[verifier::type_invariant]
    spec fn inv(self) -> bool {
        self@.valid()
    }

    /// A manager without assets.
    pub fn new() -> (manager: Self)
        ensures
            manager@.valid(),
            manager@.names == Seq::<Seq<char>>::empty(),
            manager@.payloads == Seq::<Payload>::empty(),
            manager@.gl_ids == Seq::<GlId>::empty(),
    {
        let manager = AssetManager {
            storage: AssetStorage { data: Vec::new() },
            names: Vec::new(),
            gl_ids: Vec::new(),
        };
        assert(manager@.names =~= Seq::<Seq<char>>::empty());
        manager
    }

    /// How many slots the storage has.
    pub fn storage_len(&self) -> (n: usize)
        ensures
            n == self@.payloads.len(),
            self@.valid(),
    {
        proof {
            use_type_invariant(self);
        }
        self.storage.data.len()
    }

    /// How many names are registered.
    pub fn assets_len(&self) -> (n: usize)
        ensures
            n == self@.names.len(),
            self@.valid(),
    {
        proof {
            use_type_invariant(self);
        }
        self.names.len()
    }

    fn position(&self, name: &str) -> (r: Option<usize>)
        ensures
            self@.valid(),
            match r {
                Some(i) => self@.registered(name@) && self@.slot(name@) == i && i
                    < self@.names.len(),
                None => !self@.registered(name@),
            },
    {
        proof {
            use_type_invariant(self);
        }
        let key = name.to_owned();
        let mut i: usize = 0;
        while i < self.names.len()
            invariant
                self@.valid(),
                i <= self.names@.len(),
                key@ == name@,
                forall|k: int| 0 <= k < i ==> name_views(self.names@)[k] != name@,
            decreases self.names@.len() - i,
        {
            if self.names[i] == key {
                proof {
                    assert(name_views(self.names@)[i as int] == name@);
                    seq_facts::lemma_unique_index(name_views(self.names@), i as int);
                }
                return Some(i);
            }
            i += 1;
        }
        None
    }

    /// Whether `name` is registered.
    pub fn contains(&self, name: &str) -> (b: bool)
        ensures
            b == self@.registered(name@),
    {
        self.position(name).is_some()
    }

    /// Registers `payload` under `name` in a new slot, unless the name is
    /// registered already: then nothing changes. Returns the name.
    pub fn register(&mut self, name: &str, payload: Payload) -> (key: String)
        ensures
            key@ == name@,
            final(self)@ == old(self)@.register(name@, payload),
            final(self)@.valid(),
            final(self)@.registered(name@),
    {
        let key = name.to_owned();
        match self.position(name) {
            Some(_) => {},
            None => {
                let mut taken = AssetManager {
                    storage: AssetStorage { data: Vec::new() },
                    names: Vec::new(),
                    gl_ids: Vec::new(),
                };
                proof {
                    assert(taken@.names =~= Seq::<Seq<char>>::empty());
                }
                std::mem::swap(self, &mut taken);
                let AssetManager { storage, mut names, mut gl_ids } = taken;
                let AssetStorage { mut data } = storage;
                proof {
                    seq_facts::lemma_unique_push(name_views(names@), name@);
                    assert(name_views(names@.push(key)) =~= name_views(names@).push(name@));
                }
                names.push(name.to_owned());
                data.push(payload);
                gl_ids.push(None);
                proof {
                    assert(name_views(names@) =~= old(self)@.names.push(name@));
                }
                *self = AssetManager { storage: AssetStorage { data }, names, gl_ids };
            },
        }
        key
    }

    /// The asset registered under `name`; `AssetNotFound` when the name is
    /// not registered.
    pub fn get_asset(&self, name: &str) -> (r: Result<Asset, EngineError>)
        ensures
            match r {
                Ok(asset) => self@.registered(name@) && asset.indice == self@.slot(name@)
                    && asset.gl_id == self@.gl_id(name@),
                Err(e) => e == EngineError::AssetNotFound && !self@.registered(name@),
            },
    {
        match self.position(name) {
            Some(i) => Ok(Asset::new(i, self.gl_ids[i])),
            None => Err(EngineError::AssetNotFound),
        }
    }

    /// Mutable access to the renderer handle of the asset registered under
    /// `name`; `AssetNotFound` when the name is not registered. What the
    /// caller writes becomes that asset's handle; nothing else changes.
    pub fn get_mut_asset(&mut self, name: &str) -> (r: Result<&mut GlId, EngineError>)
        ensures
            match r {
                Ok(gl_id) => old(self)@.registered(name@) && *gl_id == old(self)@.gl_id(name@)
                    && final(self)@ == old(self)@.with_gl_id(name@, *final(gl_id)),
                Err(e) => e == EngineError::AssetNotFound && !old(self)@.registered(name@)
                    && *final(self) == *old(self),
            },
    {
        match self.position(name) {
            Some(i) => Ok(&mut self.gl_ids[i]),
            None => Err(EngineError::AssetNotFound),
        }
    }

    /// The payload registered under `name`, as a value of kind `T`:
    /// `AssetNotFound` when the name is not registered,
    /// `ResourceTypeMismatch` when its payload is of another kind.
    pub fn get_ressource<T: Ressource>(&self, name: &str) -> (r: Result<&T, EngineError>)
        ensures
            match r {
                Ok(value) => self@.registered(name@) && T::pick(self@.payload(name@)) == Some(
                    *value,
                ),
                Err(e) => if self@.registered(name@) {
                    e == EngineError::ResourceTypeMismatch && T::pick(self@.payload(name@)) is None
                } else {
                    e == EngineError::AssetNotFound
                },
            },
    {
        match self.position(name) {
            Some(i) => match T::downcast(&self.storage.data[i]) {
                Some(value) => Ok(value),
                None => Err(EngineError::ResourceTypeMismatch),
            },
            None => Err(EngineError::AssetNotFound),
        }
    }

    /// Decodes `bytes` in the format that the extension of `path` names and
    /// registers the texture under `path`, unless the path is registered
    /// already: then nothing is decoded, nothing changes and the call
    /// succeeds. `DecodeFailure` when the bytes cannot be decoded; nothing
    /// is registered then.
    pub fn add_texture(&mut self, path: &str, bytes: &[u8]) -> (r: Result<String, EngineError>)
        ensures
            final(self)@.valid(),
            old(self)@.registered(path@) ==> r is Ok,
            match r {
                Ok(key) => key@ == path@ && final(self)@.registered(path@) && if old(
                    self,
                )@.registered(path@) {
                    final(self)@ == old(self)@
                } else {
                    exists|texture: Texture|
                        #[trigger] texture.is_rgba() && final(self)@ == old(self)@.register(
                            path@,
                            Payload::Texture(texture),
                        )
                },
                Err(e) => e == EngineError::DecodeFailure && !old(self)@.registered(path@)
                    && final(self)@ == old(self)@,
            },
    {
        if self.contains(path) {
            proof {
                use_type_invariant(&*self);
            }
            return Ok(path.to_owned());
        }
        match Texture::decode(path, bytes) {
            Ok(texture) => Ok(self.register(path, Payload::Texture(texture))),
            Err(e) => {
                proof {
                    use_type_invariant(&*self);
                }
                Err(e)
            },
        }
    }

    /// Registers each texture of the batch under its path, one after the
    /// other; a path that is registered keeps what it has.
    pub fn add_textures(&mut self, textures: Vec<(String, Texture)>)
        ensures
            final(self)@.valid(),
            final(self)@ == register_all(old(self)@, textures@),
    {
        proof {
            use_type_invariant(&*self);
        }
        let ghost batch = textures@;
        for item in it: textures
            invariant
                it.seq() == batch,
                self@.valid(),
                self@ == register_all(old(self)@, batch.subrange(0, it.index() as int)),
        {
            proof {
                let next = batch.subrange(0, it.index() + 1);
                assert(next.drop_last() =~= batch.subrange(0, it.index() as int));
                assert(next.last() == item);
            }
            let (path, texture) = item;
            let _ = self.register(path.as_str(), Payload::Texture(texture));
        }
        proof {
            assert(batch.subrange(0, batch.len() as int) =~= batch);
        }
    }

    /// Registers under `name` the shader program that `compile` makes of the
    /// two shader names, unless the name is registered already: then nothing
    /// is compiled and nothing changes. Returns the name.
    pub fn add_shader<F: FnOnce(&str, &str) -> Shader>(
        &mut self,
        name: &str,
        vert: &str,
        frag: &str,
        compile: F,
    ) -> (key: String)
        requires
            !old(self)@.registered(name@) ==> call_requires(compile, (vert, frag)),
        ensures
            key@ == name@,
            final(self)@.valid(),
            final(self)@.registered(name@),
            if old(self)@.registered(name@) {
                final(self)@ == old(self)@
            } else {
                exists|shader: Shader|
                    #[trigger] call_ensures(compile, (vert, frag), shader) && final(self)@ == old(
                        self,
                    )@.register(name@, Payload::Shader(shader))
            },
    {
        if self.contains(name) {
            proof {
                use_type_invariant(&*self);
            }
            return name.to_owned();
        }
        let shader = compile(vert, frag);
        self.register(name, Payload::Shader(shader))
    }

    /// Every payload of kind `T`, in the order of the storage.
    pub fn get_ressources<T: Ressource>(&self) -> (r: Vec<&T>)
        ensures
            r@.len() == crate::resource::picks::<T>(self@.payloads).len(),
            forall|i: int|
                0 <= i < r@.len() ==> *#[trigger] r@[i] == crate::resource::picks::<T>(
                    self@.payloads,
                )[i],
    {
        let mut out: Vec<&T> = Vec::new();
        let mut i: usize = 0;
        while i < self.storage.data.len()
            invariant
                i <= self.storage.data@.len(),
                out@.len() == crate::resource::picks::<T>(self.storage.data@.subrange(0, i as int)).len(),
                forall|k: int|
                    0 <= k < out@.len() ==> *#[trigger] out@[k] == crate::resource::picks::<T>(
                        self.storage.data@.subrange(0, i as int),
                    )[k],
            decreases self.storage.data@.len() - i,
        {
            proof {
                let next = self.storage.data@.subrange(0, i + 1);
                assert(next.drop_last() =~= self.storage.data@.subrange(0, i as int));
                assert(next.last() == self.storage.data@[i as int]);
            }
            match T::downcast(&self.storage.data[i]) {
                Some(value) => {
                    out.push(value);
                },
                None => {},
            }
            i += 1;
        }
        proof {
            assert(self.storage.data@.subrange(0, i as int) =~= self.storage.data@);
        }
        out
    }

    /// Takes `name` away with its storage slot; the assets behind it move
    /// one slot forward and stay what they are. `AssetNotFound` when the
    /// name is not registered.
    pub fn remove(&mut self, name: &str) -> (r: Result<(), EngineError>)
        ensures
            final(self)@.valid(),
            match r {
                Ok(_) => old(self)@.registered(name@) && final(self)@ == old(self)@.unregister(
                    name@,
                ),
                Err(e) => e == EngineError::AssetNotFound && !old(self)@.registered(name@)
                    && *final(self) == *old(self),
            },
    {
        match self.position(name) {
            Some(i) => {
                let mut taken = AssetManager {
                    storage: AssetStorage { data: Vec::new() },
                    names: Vec::new(),
                    gl_ids: Vec::new(),
                };
                proof {
                    assert(taken@.names =~= Seq::<Seq<char>>::empty());
                }
                std::mem::swap(self, &mut taken);
                let AssetManager { storage, mut names, mut gl_ids } = taken;
                let AssetStorage { mut data } = storage;
                proof {
                    seq_facts::lemma_unique_remove(name_views(names@), i as int);
                    assert(name_views(names@.remove(i as int)) =~= name_views(names@).remove(
                        i as int,
                    ));
                    data@.remove_ensures(i as int);
                    gl_ids@.remove_ensures(i as int);
                }
                names.remove(i);
                data.remove(i);
                gl_ids.remove(i);
                *self = AssetManager { storage: AssetStorage { data }, names, gl_ids };
                Ok(())
            },
            None => Err(EngineError::AssetNotFound),
        }
    }

    /// Sends the texture registered under `name` to the renderer, once:
    /// where the asset has a handle, that handle is returned and `upload` is
    /// not called; otherwise `upload` gets the texture's size and bytes, and
    /// the handle it returns is recorded and returned. `AssetNotFound` when
    /// the name is not registered, `ResourceTypeMismatch` when its payload
    /// is no texture.
    pub fn gl_load<F: FnOnce(i32, i32, &Vec<u8>) -> u32>(&mut self, name: &str, upload: F) -> (r:
        Result<u32, EngineError>)
        requires
            old(self)@.registered(name@) && old(self)@.gl_id(name@) is None ==> match old(
                self,
            )@.payload(name@) {
                Payload::Texture(texture) => call_requires(
                    upload,
                    (texture.width, texture.height, &texture.raw),
                ),
                Payload::Shader(_) => true,
            },
        ensures
            final(self)@.valid(),
            match r {
                Ok(id) => old(self)@.registered(name@) && id == old(self)@.handle(name@, id)
                    && final(self)@ == old(self)@.materialized(name@, id) && match old(
                    self,
                )@.payload(name@) {
                    Payload::Texture(texture) => old(self)@.gl_id(name@) is None ==> call_ensures(
                        upload,
                        (texture.width, texture.height, &texture.raw),
                        id,
                    ),
                    Payload::Shader(_) => false,
                },
                Err(e) => final(self)@ == old(self)@ && if old(self)@.registered(name@) {
                    e == EngineError::ResourceTypeMismatch && old(self)@.payload(name@) is Shader
                } else {
                    e == EngineError::AssetNotFound
                },
            },
    {
        proof {
            use_type_invariant(&*self);
        }
        match self.position(name) {
            Some(i) => match &self.storage.data[i] {
                Payload::Texture(texture) => match self.gl_ids[i] {
                    Some(known) => Ok(known),
                    None => {
                        let id = upload(texture.width, texture.height, &texture.raw);
                        self.gl_ids[i] = Some(id);
                        Ok(id)
                    },
                },
                Payload::Shader(_) => Err(EngineError::ResourceTypeMismatch),
            },
            None => Err(EngineError::AssetNotFound),
        }
    }

    /// Registers the texture of `bytes` under `name`, unless the name is
    /// registered already, and sends it to the renderer, unless it has a
    /// handle already. Gives the name and the handle.
    ///
    /// `DecodeFailure` where the name is new and the bytes cannot be
    /// decoded, `ResourceTypeMismatch` where the name holds a shader;
    /// nothing changes then, and a caller leaves its mesh without texture.
    pub fn add_and_load<F: FnOnce(i32, i32, &Vec<u8>) -> u32>(
        &mut self,
        name: &str,
        bytes: &[u8],
        upload: F,
    ) -> (r: Result<(String, u32), EngineError>)
        requires
            forall|w: i32, h: i32, raw: &Vec<u8>| call_requires(upload, (w, h, raw)),
        ensures
            final(self)@.valid(),
            old(self)@.registered(name@) && old(self)@.payload(name@) is Texture ==> r is Ok,
            match r {
                Ok((key, id)) => key@ == name@ && added_and_loaded(
                    old(self)@,
                    name@,
                    upload,
                    id,
                    final(self)@,
                ),
                Err(e) => final(self)@ == old(self)@ && if old(self)@.registered(name@) {
                    e == EngineError::ResourceTypeMismatch && old(self)@.payload(name@) is Shader
                } else {
                    e == EngineError::DecodeFailure
                },
            },
    {
        proof {
            use_type_invariant(&*self);
        }
        let ghost before = self@;
        match self.add_texture(name, bytes) {
            Ok(key) => {
                let ghost mid = self@;
                let ghost texture = if before.registered(name@) {
                    before.texture(name@)
                } else {
                    choose|texture: Texture|
                        #[trigger] texture.is_rgba() && mid == before.register(
                            name@,
                            Payload::Texture(texture),
                        )
                };
                proof {
                    lemma_register_twice(
                        before,
                        name@,
                        Payload::Texture(texture),
                        Payload::Texture(texture),
                    );
                    assert(mid == before.register(name@, Payload::Texture(texture)));
                }
                match self.gl_load(name, upload) {
                    Ok(id) => {
                        proof {
                            lemma_materialize_once(mid, name@, id, id);
                            assert(loaded_as(before, name@, texture, id, self@));
                            assert(added_and_loaded(before, name@, upload, id, self@));
                        }
                        Ok((key, id))
                    },
                    Err(e) => {
                        proof {
                            assert(mid.payload(name@) is Shader);
                            assert(before.registered(name@));
                            assert(self@ == before);
                        }
                        Err(e)
                    },
                }
            },
            Err(e) => Err(e),
        }
    }
}

impl Default for AssetManager {
    /// A manager without assets.
    fn default() -> (manager: Self)
        ensures
            manager@.valid(),
            manager@.names == Seq::<Seq<char>>::empty(),
            manager@.payloads == Seq::<Payload>::empty(),
            manager@.gl_ids == Seq::<GlId>::empty(),
    {
        AssetManager::new()
    }
}

/// Whether `after` is what `before` becomes when `texture` is registered
/// under a name, unless the name is registered, and the asset of the name is
/// then sent to the renderer, which answers `id` if it is asked: the name
/// holds a texture, and `id` is its handle.
pub open spec fn loaded_as(
    before: Assets,
    name: Seq<char>,
    texture: Texture,
    id: u32,
    after: Assets,
) -> bool {
    let registered = before.register(name, Payload::Texture(texture));
    &&& registered.payload(name) is Texture
    &&& after == registered.materialized(name, id)
    &&& id == registered.handle(name, id)
    &&& after.registered(name)
    &&& after.gl_id(name) == Some(id)
}

/// Whether `after` is what `before` becomes when a texture is registered
/// under a name, unless the name is registered, and is then sent to the
/// renderer through `upload`, unless it has a handle: some texture, an RGBA
/// image where it is new, is loaded as `loaded_as` says, and `id` is what
/// `upload` gave for the stored texture where it was asked.
pub open spec fn added_and_loaded<F: FnOnce(i32, i32, &Vec<u8>) -> u32>(
    before: Assets,
    name: Seq<char>,
    upload: F,
    id: u32,
    after: Assets,
) -> bool {
    exists|texture: Texture|
        #[trigger] loaded_as(before, name, texture, id, after) && (before.registered(name)
            || texture.is_rgba()) && ({
            let registered = before.register(name, Payload::Texture(texture));
            registered.gl_id(name) is None ==> call_ensures(
                upload,
                (
                    registered.texture(name).width,
                    registered.texture(name).height,
                    &registered.texture(name).raw,
                ),
                id,
            )
        })
}

/// A batch of textures registered under their paths, one after the other.
pub open spec fn register_all(assets: Assets, batch: Seq<(String, Texture)>) -> Assets
    decreases batch.len(),
{
    if batch.len() == 0 {
        assets
    } else {
        register_all(assets, batch.drop_last()).register(
            batch.last().0@,
            Payload::Texture(batch.last().1),
        )
    }
}

/// Registering a name a second time changes nothing: the storage does not
/// grow and the name keeps the payload of the first registration.
pub proof fn lemma_register_twice(assets: Assets, name: Seq<char>, first: Payload, second: Payload)
    requires
        assets.valid(),
    ensures
        assets.register(name, first).valid(),
        assets.register(name, first).registered(name),
        assets.register(name, first).register(name, second) == assets.register(name, first),
        !assets.registered(name) ==> assets.register(name, first).payload(name) == first
            && assets.register(name, first).gl_id(name) == None::<u32>
            && assets.register(name, first).payloads.len() == assets.payloads.len() + 1,
{
    if !assets.registered(name) {
        seq_facts::lemma_unique_push(assets.names, name);
    }
}

/// Registering a name leaves every other registered name with its slot, its
/// payload and its renderer handle.
pub proof fn lemma_register_keeps_others(
    assets: Assets,
    name: Seq<char>,
    payload: Payload,
    other: Seq<char>,
)
    requires
        assets.valid(),
        assets.registered(other),
    ensures
        assets.register(name, payload).registered(other),
        assets.register(name, payload).slot(other) == assets.slot(other),
        assets.register(name, payload).payload(other) == assets.payload(other),
        assets.register(name, payload).gl_id(other) == assets.gl_id(other),
{
    if !assets.registered(name) {
        seq_facts::lemma_unique_push(assets.names, name);
        seq_facts::lemma_index_of_holds(assets.names, other);
    }
}

/// Sending an asset to the renderer a second time changes nothing and
/// gives the handle of the first time, whatever the renderer would answer.
pub proof fn lemma_materialize_once(assets: Assets, name: Seq<char>, first: u32, second: u32)
    requires
        assets.valid(),
        assets.registered(name),
    ensures
        assets.materialized(name, first).valid(),
        assets.materialized(name, first).registered(name),
        assets.materialized(name, first).gl_id(name) == Some(assets.handle(name, first)),
        assets.materialized(name, first).materialized(name, second) == assets.materialized(
            name,
            first,
        ),
        assets.materialized(name, first).handle(name, second) == assets.handle(name, first),
        assets.materialized(name, first).payloads == assets.payloads,
{
    crate::seq_facts::lemma_index_of_holds(assets.names, name);
}

/// Once a handle is recorded for a name, it is the name's handle: sending
/// the asset to the renderer again finds it and has nothing to upload. The
/// payloads and the other handles stay.
pub proof fn lemma_handle_recorded(assets: Assets, name: Seq<char>, id: u32)
    requires
        assets.valid(),
        assets.registered(name),
    ensures
        assets.with_gl_id(name, Some(id)).valid(),
        assets.with_gl_id(name, Some(id)).registered(name),
        assets.with_gl_id(name, Some(id)).gl_id(name) == Some(id),
        assets.with_gl_id(name, Some(id)).payloads == assets.payloads,
        forall|other: Seq<char>|
            assets.registered(other) && other != name ==> #[trigger] assets.with_gl_id(
                name,
                Some(id),
            ).gl_id(other) == assets.gl_id(other),
{
    seq_facts::lemma_index_of_holds(assets.names, name);
    assert forall|other: Seq<char>| assets.registered(other) && other != name implies #[trigger]
        assets.with_gl_id(name, Some(id)).gl_id(other) == assets.gl_id(other) by {
        seq_facts::lemma_index_of_holds(assets.names, other);
    }
}

/// Taking a name away leaves it unregistered, and every other registered
/// name with its payload and its renderer handle, one slot forward where it
/// stood behind the name.
pub proof fn lemma_unregister_keeps_others(assets: Assets, name: Seq<char>, other: Seq<char>)
    requires
        assets.valid(),
        assets.registered(name),
        assets.registered(other),
        other != name,
    ensures
        assets.unregister(name).valid(),
        !assets.unregister(name).registered(name),
        assets.unregister(name).names.len() == assets.names.len() - 1,
        assets.unregister(name).registered(other),
        assets.unregister(name).slot(other) == if assets.slot(other) < assets.slot(name) {
            assets.slot(other)
        } else {
            assets.slot(other) - 1
        },
        assets.unregister(name).payload(other) == assets.payload(other),
        assets.unregister(name).gl_id(other) == assets.gl_id(other),
{
    let i = assets.slot(name);
    seq_facts::lemma_index_of_holds(assets.names, name);
    seq_facts::lemma_index_of_holds(assets.names, other);
    seq_facts::lemma_unique_remove(assets.names, i);
    assets.payloads.remove_ensures(i);
    assets.gl_ids.remove_ensures(i);
}

} // verus!
