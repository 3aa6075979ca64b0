//! Which sampler each texture is used with.
use crate::arena::{Arena, Handle};
use crate::error::{Error, ErrorView, Stop};
use crate::ir::{Expression, Function, GlobalVariable};
use crate::names::{NameKey, Names};
use crate::visit::{after_all, function_visits, Interface, Visitor};
use vstd::prelude::*;

verus! {

/// Structure that connects a texture to a sampler or not
///
/// glsl pre vulkan has no concept of separate textures and samplers instead everything is a
/// `gsamplerN` where `g` is the scalar type and `N` is the dimension, but the IR uses separate
/// textures and samplers so the writer produces a map with the texture name as a key and a
/// [`TextureMapping`] as a value this way the user knows where to bind.
///
/// [`Storage`](crate::ir::ImageClass::Storage) images produce `gimageN` and don't have an
/// associated sampler so the [`sampler`](Self::sampler) field will be [`None`]
#[derive(Debug, Clone, Copy)]
pub struct TextureMapping {
    /// Handle to the image global variable
    pub texture: Handle<GlobalVariable>,
    /// Handle to the associated sampler global variable if it exists
    pub sampler: Option<Handle<GlobalVariable>>,
}

/// A map from texture names to mappings.
#[derive(Debug)]
pub struct TextureMappings {
    pub entries: Vec<(String, TextureMapping)>,
}

impl View for TextureMappings {
    type V = Map<Seq<char>, TextureMapping>;

    open spec fn view(&self) -> Map<Seq<char>, TextureMapping> {
        Map::new(
            |name: Seq<char>| exists|i: int| self.has_at(i, name),
            |name: Seq<char>| self.entries@[choose|i: int| self.has_at(i, name)].1,
        )
    }
}

impl TextureMappings {
    /// Whether the entry at `i` is that of `name`.
    pub open spec fn has_at(self, i: int, name: Seq<char>) -> bool {
        0 <= i < self.entries@.len() && self.entries@[i].0@ == name
    }

    /// No name has two entries.
    pub open spec fn wf(self) -> bool {
        forall|i: int, j: int|
            0 <= i < j < self.entries@.len() ==> (#[trigger] self.entries@[i]).0@ != (
            #[trigger] self.entries@[j]).0@
    }

    /// A map without entries.
    pub fn new() -> (mappings: Self)
        ensures
            mappings.wf(),
            mappings@ == Map::<Seq<char>, TextureMapping>::empty(),
    {
        let mappings = TextureMappings { entries: Vec::new() };
        assert(mappings@ =~= Map::<Seq<char>, TextureMapping>::empty());
        mappings
    }

    /// The number of entries.
    pub fn len(&self) -> (len: usize)
        requires
            self.wf(),
        ensures
            self@.dom().finite(),
            len == self@.dom().len(),
    {
        proof {
            let names = Seq::new(self.entries@.len(), |i: int| self.entries@[i].0@);
            assert(names.no_duplicates()) by {
                assert forall|i: int, j: int|
                    0 <= i < names.len() && 0 <= j < names.len() && i != j implies names[i]
                    != names[j] by {
                    assert(names[i] == self.entries@[i].0@ && names[j] == self.entries@[j].0@);
                }
            }
            names.unique_seq_to_set();
            assert forall|name: Seq<char>| self@.dom().contains(name) == names.to_set().contains(
                name,
            ) by {
                if names.to_set().contains(name) {
                    let i = choose|i: int| 0 <= i < names.len() && names[i] == name;
                    assert(self.has_at(i, name));
                }
                if self@.dom().contains(name) {
                    let i = choose|i: int| self.has_at(i, name);
                    assert(names[i] == name);
                }
            }
            assert(self@.dom() =~= names.to_set());
        }
        self.entries.len()
    }

    /// The mapping of the texture with this name, if there is one.
    pub fn get(&self, name: &String) -> (mapping: Option<TextureMapping>)
        requires
            self.wf(),
        ensures
            match mapping {
                Some(m) => self@.dom().contains(name@) && self@[name@] == m,
                None => !self@.dom().contains(name@),
            },
    {
        for i in 0..self.entries.len()
            invariant
                self.wf(),
                forall|j: int| 0 <= j < i ==> !self.has_at(j, name@),
        {
            if self.entries[i].0 == *name {
                let mapping = self.entries[i].1;
                proof {
                    assert(self.has_at(i as int, name@));
                    let k = choose|k: int| self.has_at(k, name@);
                    assert(self.entries@[k].0@ == self.entries@[i as int].0@);
                    assert(k == i);
                }
                return Some(mapping);
            }
        }
        None
    }

    /// Adds an entry for a name that has none.
    fn insert(&mut self, name: String, mapping: TextureMapping)
        requires
            old(self).wf(),
            !old(self)@.dom().contains(name@),
        ensures
            final(self).wf(),
            final(self)@ == old(self)@.insert(name@, mapping),
    {
        let ghost last = self.entries@.len();
        self.entries.push((name, mapping));
        proof {
            assert forall|i: int, n: Seq<char>| self.has_at(i, n) implies old(self).has_at(i, n)
                || (i == last && n == name@) by {}
            assert(self.has_at(last as int, name@));
            assert(self.wf()) by {
                assert forall|i: int, j: int| 0 <= i < j < self.entries@.len() implies (
                #[trigger] self.entries@[i]).0@ != (#[trigger] self.entries@[j]).0@ by {
                    if j == last {
                        assert(old(self).has_at(i, old(self).entries@[i].0@));
                    }
                }
            }
            assert forall|n: Seq<char>| self@.dom().contains(n) == old(self)@.insert(
                name@,
                mapping,
            ).dom().contains(n) by {
                if old(self)@.dom().contains(n) {
                    let k = choose|k: int| old(self).has_at(k, n);
                    assert(self.has_at(k, n));
                }
            }
            assert forall|n: Seq<char>| #[trigger] self@.dom().contains(n) implies self@[n]
                == old(self)@.insert(name@, mapping)[n] by {
                let k = choose|k: int| self.has_at(k, n);
                if n == name@ {
                    assert(!old(self).has_at(k, n));
                } else {
                    assert(old(self).has_at(k, n));
                    let j = choose|j: int| old(self).has_at(j, n);
                    assert(self.entries@[j].0@ == self.entries@[k].0@);
                    assert(j == k);
                }
            }
            assert(self@ =~= old(self)@.insert(name@, mapping));
        }
    }
}

/// What is known of the textures of a function while its expressions are visited.
pub struct TextureModel {
    /// The names of the module.
    pub names: Names,
    /// The expressions of the function.
    pub expressions: Arena<Expression>,
    /// The textures that have been used so far.
    pub map: Map<Seq<char>, TextureMapping>,
    /// Whether a texture has been used with more than one sampler, or both with and without.
    pub multiple: bool,
    /// Whether something else than a named global has been used as an image or a sampler.
    pub invalid: bool,
}

/// The global variable that an expression is.
pub open spec fn global_of(expressions: Arena<Expression>, expr: Handle<Expression>) -> Option<
    Handle<GlobalVariable>,
> {
    if expressions.has(expr) {
        match expressions.at(expr) {
            Expression::GlobalVariable(global) => Some(global),
            _ => None,
        }
    } else {
        None
    }
}

impl TextureModel {
    /// The module is invalid.
    pub open spec fn found_invalid(self) -> TextureModel {
        TextureModel { invalid: true, ..self }
    }

    /// One more use of a texture. The first use of a texture determines its mapping.
    pub open spec fn use_texture(
        self,
        texture: Handle<GlobalVariable>,
        sampler: Option<Handle<GlobalVariable>>,
    ) -> TextureModel {
        match self.names.lookup(NameKey::GlobalVariable(texture)) {
            None => self.found_invalid(),
            Some(name) => {
                let map = if self.map.dom().contains(name) {
                    self.map
                } else {
                    self.map.insert(name, TextureMapping { texture, sampler })
                };
                TextureModel {
                    map,
                    multiple: self.multiple || map[name].sampler != sampler,
                    ..self
                }
            },
        }
    }

    /// One more expression. Only samples of images and loads from images use textures.
    pub open spec fn visit(self, expr: Expression) -> TextureModel {
        if self.invalid {
            self
        } else {
            match expr {
                Expression::ImageSample { image, sampler, .. } => {
                    match (
                        global_of(self.expressions, image),
                        global_of(self.expressions, sampler),
                    ) {
                        (Some(texture), Some(sampler)) => self.use_texture(texture, Some(sampler)),
                        _ => self.found_invalid(),
                    }
                },
                Expression::ImageLoad { image, .. } => match global_of(self.expressions, image) {
                    Some(texture) => self.use_texture(texture, None),
                    None => self.found_invalid(),
                },
                _ => self,
            }
        }
    }
}

/// [`Visitor`] used by [`collect_texture_mapping`](crate::writer::Writer::collect_texture_mapping)
pub struct TextureMappingVisitor<'a> {
    /// Names needed by the module (used to get the image name)
    pub names: &'a Names,
    /// Arena of expressions of the function being currently visited
    pub expressions: &'a Arena<Expression>,
    /// The mapping that we are building
    pub map: TextureMappings,
    /// Whether a texture has been used with more than one sampler, or both with and without
    pub multiple: bool,
    /// Whether something else than a named global has been used as an image or a sampler
    pub invalid: bool,
}

/// The global variable that an expression is.
fn find_global(expressions: &Arena<Expression>, expr: Handle<Expression>) -> (global: Option<
    Handle<GlobalVariable>,
>)
    ensures
        global == global_of(*expressions, expr),
{
    match expressions.try_get(expr) {
        Some(Expression::GlobalVariable(global)) => Some(*global),
        _ => None,
    }
}

/// Whether two samplers are the same.
fn same_sampler(a: Option<Handle<GlobalVariable>>, b: Option<Handle<GlobalVariable>>) -> (same:
    bool)
    ensures
        same == (a == b),
{
    match (a, b) {
        (Some(x), Some(y)) => x.index == y.index,
        (None, None) => true,
        _ => false,
    }
}

impl<'a> TextureMappingVisitor<'a> {
    /// One more use of a texture.
    ///
    /// A image can only be used with one sampler or with none at all
    fn use_texture(
        &mut self,
        texture: Handle<GlobalVariable>,
        sampler: Option<Handle<GlobalVariable>>,
    )
        requires
            old(self).map.wf(),
        ensures
            final(self).map.wf(),
            final(self).texture_model() == old(self).texture_model().use_texture(texture, sampler),
    {
        match self.names.get(NameKey::GlobalVariable(texture)) {
            None => {
                self.invalid = true;
            },
            Some(name) => match self.map.get(name) {
                Some(mapping) => {
                    if !same_sampler(mapping.sampler, sampler) {
                        self.multiple = true;
                    }
                },
                None => {
                    self.map.insert(name.clone(), TextureMapping { texture, sampler });
                },
            },
        }
    }

    /// What is known so far.
    pub open spec fn texture_model(&self) -> TextureModel {
        TextureModel {
            names: *self.names,
            expressions: *self.expressions,
            map: self.map@,
            multiple: self.multiple,
            invalid: self.invalid,
        }
    }
}

impl<'a> Visitor for TextureMappingVisitor<'a> {
    type Model = TextureModel;

    open spec fn wf(&self) -> bool {
        self.map.wf()
    }

    open spec fn model(&self) -> TextureModel {
        self.texture_model()
    }

    open spec fn after(model: TextureModel, expr: Expression) -> TextureModel {
        model.visit(expr)
    }

    fn visit_expr(&mut self, expr: &Expression) {
        if self.invalid {
            return;
        }
        // We only care about `ImageSample` and `ImageLoad`
        //
        // Both `image` and `sampler` are `Expression::GlobalVariable` otherwise the module is
        // invalid
        match expr {
            Expression::ImageSample { image, sampler, .. } => {
                match (
                    find_global(self.expressions, *image),
                    find_global(self.expressions, *sampler),
                ) {
                    (Some(texture), Some(sampler)) => self.use_texture(texture, Some(sampler)),
                    _ => {
                        self.invalid = true;
                    },
                }
            },
            Expression::ImageLoad { image, .. } => match find_global(self.expressions, *image) {
                Some(texture) => self.use_texture(texture, None),
                None => {
                    self.invalid = true;
                },
            },
            _ => (),
        }
    }
}

/// What is known of the textures of some functions.
pub enum Textures {
    /// Each texture is used with one sampler or with none at all.
    Mapped(Map<Seq<char>, TextureMapping>),
    /// A texture is used with more than one sampler, or both with and without.
    MultipleSamplers,
    /// The module is invalid.
    Invalid,
}

/// One more function.
pub open spec fn with_function_textures(
    textures: Textures,
    names: Names,
    func: Function,
) -> Textures {
    match textures {
        Textures::Mapped(map) => match function_visits(func) {
            None => Textures::Invalid,
            Some(visits) => {
                let start = TextureModel {
                    names,
                    expressions: func.expressions,
                    map,
                    multiple: false,
                    invalid: false,
                };
                let end = after_all::<TextureMappingVisitor<'_>>(start, visits);
                if end.invalid {
                    Textures::Invalid
                } else if end.multiple {
                    Textures::MultipleSamplers
                } else {
                    Textures::Mapped(end.map)
                }
            },
        },
        _ => textures,
    }
}

/// Adds the textures that a function uses.
pub fn collect_function_textures(
    mappings: TextureMappings,
    names: &Names,
    func: &Function,
) -> (result: Result<TextureMappings, Stop>)
    requires
        mappings.wf(),
    ensures
        match result {
            Ok(map) => {
                &&& map.wf()
                &&& with_function_textures(Textures::Mapped(mappings@), *names, *func)
                    == Textures::Mapped(map@)
            },
            Err(Stop::Error(e)) => {
                &&& e@ == ErrorView::ImageMultipleSamplers
                &&& with_function_textures(Textures::Mapped(mappings@), *names, *func)
                    == Textures::MultipleSamplers
            },
            Err(Stop::Invalid) => with_function_textures(
                Textures::Mapped(mappings@),
                *names,
                *func,
            ) == Textures::Invalid,
        },
{
    let mut interface = Interface {
        expressions: &func.expressions,
        visitor: TextureMappingVisitor {
            names,
            expressions: &func.expressions,
            map: mappings,
            multiple: false,
            invalid: false,
        },
    };
    let valid = interface.traverse(&func.body);
    if !valid || interface.visitor.invalid {
        Err(Stop::Invalid)
    } else if interface.visitor.multiple {
        Err(Stop::Error(Error::ImageMultipleSamplers))
    } else {
        Ok(interface.visitor.map)
    }
}

} // verus!
