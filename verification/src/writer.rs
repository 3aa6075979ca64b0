//! The writer: it is created for a module and an entry point, and writes glsl.
use crate::arena::{handle_at, Handle};
use crate::call_graph::{build_call_graph, call_graph_of, model_of};
use crate::context::{Analysis, Env, FunctionCtx, FunctionType, IdGenerator, Options};
use crate::declarations::{declaration_parts, declaration_pieces};
use crate::error::{BackendResult, Error, ErrorView, Stop};
use crate::functions::{function_head_pieces, function_output, typing_of};
use crate::graph::{
    graph_edges, graph_node_weight, graph_nodes, graph_raw_nodes, graph_toposort, has_cycle,
    is_topological, toposort, CallGraph,
};
use crate::ir::{EntryPoint, Function, Module, ShaderStage, StorageClass};
use crate::names::{EntryPointIndex, NameKey};
use crate::output::{Output, Status};
use crate::render::render;
use crate::statements::{
    block_changes_nothing_after_a_stop, render_changes_nothing_after_a_stop,
};
use crate::text::{append_signed_decimal, append_tabs, signed_decimal, tabs};
use crate::textures::{
    collect_function_textures, with_function_textures, TextureMappings, Textures,
};
use vstd::prelude::*;
use vstd::string::*;

verus! {

/// Main structure of the glsl backend responsible for all code generation
pub struct Writer<'a> {
    // Inputs
    /// The module being written, with everything that is known of it
    pub env: Env<'a>,
    // Internal State
    /// The selected entry point
    pub entry_point: &'a EntryPoint,
    /// The index of the selected entry point
    pub entry_point_idx: EntryPointIndex,
    /// The current entry point call_graph (doesn't contain the entry point)
    pub call_graph: CallGraph,
    /// The output
    pub out: String,
    /// Used to generate a unique number for blocks
    pub block_id: IdGenerator,
}

impl<'a> Writer<'a> {
    /// What has been written so far.
    pub open spec fn state(self) -> Output {
        Output { text: self.out@, next_id: self.block_id.0 as nat, status: Status::Running }
    }

    /// What has been written by a step with this result.
    pub open spec fn outcome(self, result: BackendResult) -> Output {
        Output {
            text: self.out@,
            next_id: self.block_id.0 as nat,
            status: match result {
                Ok(()) => Status::Running,
                Err(Stop::Error(e)) => Status::Failed(e@),
                Err(Stop::Invalid) => Status::Invalid,
            },
        }
    }

    /// Whether this writer differs from `other` in what it has written only.
    pub open spec fn same_inputs(self, other: Self) -> bool {
        &&& self.env == other.env
        &&& self.entry_point == other.entry_point
        &&& self.entry_point_idx == other.entry_point_idx
        &&& self.call_graph == other.call_graph
    }

    /// Writes a text.
    pub fn put(&mut self, text: &str)
        ensures
            final(self).state() == old(self).state().put(text@),
            final(self).same_inputs(*old(self)),
    {
        self.out.append(text);
    }

    /// Writes tabs.
    pub fn put_tabs(&mut self, count: usize)
        ensures
            final(self).state() == old(self).state().put(tabs(count as nat)),
            final(self).same_inputs(*old(self)),
    {
        append_tabs(&mut self.out, count);
    }

    /// Writes a numeral.
    pub fn put_signed(&mut self, n: i64)
        ensures
            final(self).state() == old(self).state().put(signed_decimal(n as int)),
            final(self).same_inputs(*old(self)),
    {
        append_signed_decimal(&mut self.out, n);
    }
}

/// Whether an entry point is the one that the options select.
pub open spec fn is_selected(
    entry_point: ((ShaderStage, String), EntryPoint),
    options: Options,
) -> bool {
    &&& entry_point.0.0 == options.entry_point.0
    &&& entry_point.0.1@ == options.entry_point.1@
}

/// The first of the first `count` entry points that the options select.
pub open spec fn selected(
    entry_points: Seq<((ShaderStage, String), EntryPoint)>,
    options: Options,
    count: nat,
) -> Option<int>
    decreases count,
{
    if count == 0 {
        None
    } else {
        match selected(entry_points, options, (count - 1) as nat) {
            Some(i) => Some(i),
            None => if is_selected(entry_points[count - 1], options) {
                Some(count - 1)
            } else {
                None
            },
        }
    }
}

/// The position of the entry point that the options select.
pub open spec fn selected_entry_point(module: Module, options: Options) -> Option<int> {
    selected(module.entry_points@, options, module.entry_points@.len())
}

/// Whether a function uses the global variable at `global`, and that is a push constant.
pub open spec fn is_used_push_constant(module: Module, func: Function, global: int) -> bool {
    &&& 0 <= global < func.global_usage@.len()
    &&& global < module.global_variables@.len()
    &&& !func.global_usage@[global].is_empty()
    &&& module.global_variables@[global].class is PushConstant
}

/// Whether a function uses a push constant.
pub open spec fn uses_push_constants(module: Module, func: Function) -> bool {
    exists|global: int| is_used_push_constant(module, func, global)
}

/// Whether a writer can be created: the version must be supported, the entry point must exist and
/// use no push constants, and the version must support all the features that are used.
pub open spec fn creation(module: Module, options: Options, analysis: Analysis) -> Status {
    if !options.version.spec_is_supported() {
        Status::Failed(ErrorView::VersionNotSupported)
    } else {
        match selected_entry_point(module, options) {
            None => Status::Failed(ErrorView::EntryPointNotFound),
            Some(i) => {
                let features = analysis.features;
                let missing = features.used.spec_difference(features.supported);
                if call_graph_of(module, module.entry_points@[i].1.function) is None {
                    Status::Invalid
                } else if uses_push_constants(module, module.entry_points@[i].1.function) {
                    Status::Failed(ErrorView::PushConstantNotSupported)
                } else if !missing.spec_is_empty() {
                    Status::Failed(ErrorView::MissingFeatures(missing))
                } else {
                    Status::Running
                }
            },
        }
    }
}

impl<'a> Writer<'a> {
    /// Whether this is a new writer for the entry point that the options select.
    pub open spec fn is_new(
        self,
        module: &'a Module,
        options: &'a Options,
        analysis: &'a Analysis,
    ) -> bool {
        &&& self.env == Env { module, options, analysis }
        &&& selected_entry_point(*module, *options) matches Some(i) && {
            &&& *self.entry_point == module.entry_points@[i].1
            &&& self.entry_point_idx == i as u16
            &&& call_graph_of(*module, module.entry_points@[i].1.function) == Some(
                model_of(self.call_graph),
            )
        }
        &&& self.out@ == Seq::<char>::empty()
        &&& self.block_id.0 == 0
    }

    /// Tries to find the entry point and corresponding index.
    fn find_entry_point(module: &'a Module, options: &'a Options) -> (found: Option<
        (EntryPointIndex, &'a EntryPoint),
    >)
        ensures
            match found {
                Some((idx, entry_point)) => selected_entry_point(*module, *options) matches Some(i)
                    && idx == i as u16 && *entry_point == module.entry_points@[i].1,
                None => selected_entry_point(*module, *options) is None,
            },
    {
        for i in 0..module.entry_points.len()
            invariant
                selected(module.entry_points@, *options, i as nat) is None,
        {
            let ((stage, name), entry_point) = &module.entry_points[i];
            if *stage == options.entry_point.0 && *name == options.entry_point.1 {
                proof {
                    selected_stays(
                        module.entry_points@,
                        *options,
                        (i + 1) as nat,
                        module.entry_points@.len(),
                    );
                }
                return Some((i as u16, entry_point));
            }
        }
        None
    }

    /// Whether a function uses a push constant.
    fn find_push_constant(module: &Module, func: &Function) -> (found: bool)
        ensures
            found == uses_push_constants(*module, *func),
    {
        let globals = &module.global_variables.data;
        let mut i: usize = 0;
        while i < globals.len() && i < func.global_usage.len()
            invariant
                globals@ == module.global_variables@,
                i <= globals@.len(),
                i <= func.global_usage@.len(),
                forall|g: int| 0 <= g < i ==> !is_used_push_constant(*module, *func, g),
            decreases globals@.len() - i,
        {
            if !func.global_usage[i].is_empty() && globals[i].class == StorageClass::PushConstant {
                assert(is_used_push_constant(*module, *func, i as int));
                return true;
            }
            i = i + 1;
        }
        false
    }

    /// Creates a new [`Writer`] instance, also for modules that may be invalid
    ///
    /// # Errors
    /// - If the version specified isn't supported (or invalid)
    /// - If the entry point couldn't be found on the module
    /// - If the entry point uses push constants
    /// - If the version specified doesn't support some used features
    pub fn try_new(module: &'a Module, options: &'a Options, analysis: &'a Analysis) -> (result:
        Result<Self, Stop>)
        ensures
            match result {
                Ok(writer) => {
                    &&& creation(*module, *options, *analysis) is Running
                    &&& writer.is_new(module, options, analysis)
                },
                Err(Stop::Error(e)) => creation(*module, *options, *analysis) == Status::Failed(
                    e@,
                ),
                Err(Stop::Invalid) => creation(*module, *options, *analysis) is Invalid,
            },
    {
        // Check if the requested version is supported
        if !options.version.is_supported() {
            return Err(Stop::Error(Error::VersionNotSupported));
        }
        // Try to find the entry point and corresponding index
        let (entry_point_idx, entry_point) = match Self::find_entry_point(module, options) {
            Some(found) => found,
            None => {
                return Err(Stop::Error(Error::EntryPointNotFound));
            },
        };
        // Generate a call graph for the entry point
        let call_graph = match build_call_graph(module, &entry_point.function) {
            Ok(graph) => graph,
            Err(_) => {
                return Err(Stop::Invalid);
            },
        };
        // Check that no push constants are used
        if Self::find_push_constant(module, &entry_point.function) {
            return Err(Stop::Error(Error::PushConstantNotSupported));
        }
        // Check that all features required to print this module are there
        let missing = analysis.features.used.difference(analysis.features.supported);
        if !missing.is_empty() {
            return Err(Stop::Error(Error::MissingFeatures(missing)));
        }
        // Build the instance
        Ok(
            Writer {
                env: Env { module, options, analysis },
                entry_point,
                entry_point_idx,
                call_graph,
                out: String::new(),
                block_id: IdGenerator::default(),
            },
        )
    }

    /// Creates a new [`Writer`] instance
    ///
    /// # Errors
    /// - If the version specified isn't supported (or invalid)
    /// - If the entry point couldn't be found on the module
    /// - If the entry point uses push constants
    /// - If the version specified doesn't support some used features
    pub fn new(module: &'a Module, options: &'a Options, analysis: &'a Analysis) -> (result: Result<
        Self,
        Error,
    >)
        requires
            !(creation(*module, *options, *analysis) is Invalid),
        ensures
            match result {
                Ok(writer) => {
                    &&& creation(*module, *options, *analysis) is Running
                    &&& writer.is_new(module, options, analysis)
                },
                Err(e) => creation(*module, *options, *analysis) == Status::Failed(e@),
            },
    {
        match Self::try_new(module, options, analysis) {
            Ok(writer) => Ok(writer),
            Err(Stop::Error(e)) => Err(e),
            Err(Stop::Invalid) => {
                assert(false);
                Err(Error::EntryPointNotFound)
            },
        }
    }
}

/// The entry point that is found first stays the selected one.
proof fn selected_stays(
    entry_points: Seq<((ShaderStage, String), EntryPoint)>,
    options: Options,
    found: nat,
    count: nat,
)
    requires
        found <= count,
        selected(entry_points, options, found) is Some,
    ensures
        selected(entry_points, options, count) == selected(entry_points, options, found),
    decreases count,
{
    if found < count {
        selected_stays(entry_points, options, found, (count - 1) as nat);
    }
}

/// The selected entry point is the first one that has the stage and the name of the options, and
/// there is none only if no entry point has them.
pub proof fn selected_entry_point_is_the_first_match(module: Module, options: Options)
    ensures
        match selected_entry_point(module, options) {
            Some(i) => {
                &&& 0 <= i < module.entry_points@.len()
                &&& is_selected(module.entry_points@[i], options)
                &&& forall|j: int|
                    0 <= j < i ==> !is_selected(#[trigger] module.entry_points@[j], options)
            },
            None => forall|j: int|
                0 <= j < module.entry_points@.len() ==> !is_selected(
                    #[trigger] module.entry_points@[j],
                    options,
                ),
        },
{
    selection_is_the_first_match(module.entry_points@, options, module.entry_points@.len());
}

/// The selected one of the first `count` entry points is the first match.
proof fn selection_is_the_first_match(
    entry_points: Seq<((ShaderStage, String), EntryPoint)>,
    options: Options,
    count: nat,
)
    requires
        count <= entry_points.len(),
    ensures
        match selected(entry_points, options, count) {
            Some(i) => {
                &&& 0 <= i < count
                &&& is_selected(entry_points[i], options)
                &&& forall|j: int| 0 <= j < i ==> !is_selected(#[trigger] entry_points[j], options)
            },
            None => forall|j: int|
                0 <= j < count ==> !is_selected(#[trigger] entry_points[j], options),
        },
    decreases count,
{
    if count > 0 {
        selection_is_the_first_match(entry_points, options, (count - 1) as nat);
    }
}

/// `o` with the functions of the first `count` nodes of `order` at the end, unless writing has
/// stopped. An empty line follows each function.
pub open spec fn functions_output(
    env: Env<'_>,
    o: Output,
    nodes: Seq<usize>,
    order: Seq<u32>,
    count: nat,
) -> Output
    decreases count,
{
    if count == 0 {
        o
    } else {
        let before = functions_output(env, o, nodes, order, (count - 1) as nat);
        node_output(env, before, nodes, order[count - 1])
    }
}

/// `o` with the function of a node at the end, unless writing has stopped.
pub open spec fn node_output(env: Env<'_>, o: Output, nodes: Seq<usize>, node: u32) -> Output {
    if node < nodes.len() && nodes[node as int] < env.module.functions@.len() {
        let position = nodes[node as int] as int;
        let handle = handle_at(position);
        match env.analysis.names.lookup(NameKey::Function(handle)) {
            Some(name) => function_output(
                env,
                o,
                FunctionType::Function(handle),
                env.module.functions@[position],
                name,
            ).put("\n"@),
            None => o.invalid(),
        }
    } else {
        o.invalid()
    }
}

/// What is known of the textures of the functions of the first `count` nodes.
pub open spec fn node_textures(env: Env<'_>, nodes: Seq<usize>, count: nat) -> Textures
    decreases count,
{
    if count == 0 {
        Textures::Mapped(Map::empty())
    } else {
        let before = node_textures(env, nodes, (count - 1) as nat);
        let position = nodes[count - 1];
        if position < env.module.functions@.len() {
            with_function_textures(
                before,
                env.analysis.names,
                env.module.functions@[position as int],
            )
        } else if before is Mapped {
            Textures::Invalid
        } else {
            before
        }
    }
}

impl<'a> Writer<'a> {
    /// The output with the declarations of the module at the end.
    pub open spec fn declared(self) -> Output {
        render(self.env, None, self.state(), declaration_pieces(self.env, *self.entry_point))
    }

    /// The nodes of the call graph in the order in which their functions are written.
    pub open spec fn function_order(self) -> Option<Seq<u32>> {
        toposort(graph_nodes(self.call_graph).len(), graph_edges(self.call_graph))
    }

    /// The functions are written in a topological order, and only a cycle leaves them without one.
    pub open spec fn order_is_sound(self) -> bool {
        let edges = graph_edges(self.call_graph);
        match self.function_order() {
            Some(order) => is_topological(order, graph_nodes(self.call_graph).len(), edges),
            None => has_cycle(edges),
        }
    }

    /// The output with the whole module at the end: the declarations, then the functions in
    /// topological order, then the entry point as `main`.
    pub open spec fn module_output(self) -> Output {
        let env = self.env;
        let nodes = graph_nodes(self.call_graph);
        let o = self.declared();
        match self.function_order() {
            None => o.invalid(),
            Some(order) => {
                let o = functions_output(env, o, nodes, order, order.len());
                function_output(
                    env,
                    o,
                    FunctionType::EntryPoint(self.entry_point_idx),
                    self.entry_point.function,
                    "main"@,
                )
            },
        }
    }

    /// What becomes of the module.
    pub open spec fn status(self) -> Status {
        write_status(self.module_output().status, self.module_textures())
    }

    /// Whether `after` has written the module.
    pub open spec fn written(self, after: Self) -> bool {
        &&& after.same_inputs(self)
        &&& after.out@ == self.module_output().text
        &&& after.block_id.0 == self.module_output().next_id
    }

    /// What is known of the textures of the module.
    pub open spec fn module_textures(self) -> Textures {
        let nodes = graph_nodes(self.call_graph);
        with_function_textures(
            node_textures(self.env, nodes, nodes.len()),
            self.env.analysis.names,
            self.entry_point.function,
        )
    }
}

/// What becomes of a module: the textures count only once everything has been written.
pub open spec fn write_status(written: Status, textures: Textures) -> Status {
    match written {
        Status::Running => match textures {
            Textures::Mapped(_) => Status::Running,
            Textures::MultipleSamplers => Status::Failed(ErrorView::ImageMultipleSamplers),
            Textures::Invalid => Status::Invalid,
        },
        _ => written,
    }
}

/// Once writing has stopped, a further function changes nothing.
pub proof fn function_changes_nothing_after_a_stop(
    env: Env<'_>,
    o: Output,
    ty: FunctionType,
    func: Function,
    name: Seq<char>,
)
    requires
        !(o.status is Running),
    ensures
        function_output(env, o, ty, func, name) == o,
{
    if let Some(Ok(typifier)) = typing_of(env, ty) {
        let ctx = FunctionCtx { func: ty, expressions: &func.expressions, typifier: &typifier };
        let head = function_head_pieces(env, ty, func, name);
        render_changes_nothing_after_a_stop(env, Some(ctx), o, head);
        block_changes_nothing_after_a_stop(env, ctx, o, func.body@, func.body@.len(), 1);
    }
}

/// Once writing has stopped, the function of a further node changes nothing.
pub proof fn node_changes_nothing_after_a_stop(
    env: Env<'_>,
    o: Output,
    nodes: Seq<usize>,
    node: u32,
)
    requires
        !(o.status is Running),
    ensures
        node_output(env, o, nodes, node) == o,
{
    if node < nodes.len() && nodes[node as int] < env.module.functions@.len() {
        let position = nodes[node as int] as int;
        let handle = handle_at(position);
        if let Some(name) = env.analysis.names.lookup(NameKey::Function(handle)) {
            function_changes_nothing_after_a_stop(
                env,
                o,
                FunctionType::Function(handle),
                env.module.functions@[position],
                name,
            );
        }
    }
}

/// Once the first `written` functions have stopped writing, the others change nothing.
pub proof fn functions_change_nothing_after_a_stop(
    env: Env<'_>,
    o: Output,
    nodes: Seq<usize>,
    order: Seq<u32>,
    written: nat,
    count: nat,
)
    requires
        written <= count,
        !(functions_output(env, o, nodes, order, written).status is Running),
    ensures
        functions_output(env, o, nodes, order, count) == functions_output(
            env,
            o,
            nodes,
            order,
            written,
        ),
    decreases count,
{
    if written < count {
        functions_change_nothing_after_a_stop(env, o, nodes, order, written, (count - 1) as nat);
        let before = functions_output(env, o, nodes, order, (count - 1) as nat);
        node_changes_nothing_after_a_stop(env, before, nodes, order[count - 1]);
    }
}

/// Once the textures of the first `visited` functions have been found wanting, the others change
/// nothing.
proof fn textures_stay_wanting(env: Env<'_>, nodes: Seq<usize>, visited: nat, count: nat)
    requires
        visited <= count,
        !(node_textures(env, nodes, visited) is Mapped),
    ensures
        node_textures(env, nodes, count) == node_textures(env, nodes, visited),
    decreases count,
{
    if visited < count {
        textures_stay_wanting(env, nodes, visited, (count - 1) as nat);
    }
}

impl<'a> Writer<'a> {
    /// Writes the function of a node of the call graph.
    fn write_node(&mut self, node: u32) -> (result: BackendResult)
        ensures
            final(self).outcome(result) == node_output(
                old(self).env,
                old(self).state(),
                graph_nodes(old(self).call_graph),
                node,
            ),
            final(self).same_inputs(*old(self)),
    {
        let env = self.env;
        let position: usize = match graph_node_weight(&self.call_graph, node) {
            Some(position) => position,
            None => {
                return Err(Stop::Invalid);
            },
        };
        if position >= env.module.functions.len() {
            return Err(Stop::Invalid);
        }
        let handle = Handle::new(position);
        match env.analysis.names.get(NameKey::Function(handle)) {
            Some(name) => {
                self.write_function(
                    FunctionType::Function(handle),
                    &env.module.functions.data[position],
                    name.as_str(),
                )?;
                self.put("\n");
                Ok(())
            },
            None => Err(Stop::Invalid),
        }
    }

    /// Writes the functions of nodes of the call graph.
    fn write_nodes(&mut self, order: &Vec<u32>) -> (result: BackendResult)
        ensures
            final(self).outcome(result) == functions_output(
                old(self).env,
                old(self).state(),
                graph_nodes(old(self).call_graph),
                order@,
                order@.len(),
            ),
            final(self).same_inputs(*old(self)),
    {
        let ghost start = self.state();
        let ghost nodes = graph_nodes(self.call_graph);
        for i in 0..order.len()
            invariant
                start == old(self).state(),
                nodes == graph_nodes(self.call_graph),
                self.state() == functions_output(self.env, start, nodes, order@, i as nat),
                self.same_inputs(*old(self)),
        {
            match self.write_node(order[i]) {
                Ok(()) => (),
                Err(stop) => {
                    proof {
                        functions_change_nothing_after_a_stop(
                            self.env,
                            start,
                            nodes,
                            order@,
                            (i + 1) as nat,
                            order@.len(),
                        );
                    }
                    return Err(stop);
                },
            }
        }
        Ok(())
    }

    /// Writes the module as glsl to the output.
    fn write_module(&mut self) -> (result: BackendResult)
        ensures
            final(self).outcome(result) == old(self).module_output(),
            old(self).declared().status is Running ==> old(self).order_is_sound(),
            final(self).same_inputs(*old(self)),
    {
        let env = self.env;
        let entry_point = self.entry_point;
        let entry_point_type = FunctionType::EntryPoint(self.entry_point_idx);
        let parts = declaration_parts(env, entry_point);
        let ghost declared = self.declared();
        let ghost nodes = graph_nodes(self.call_graph);
        let ghost sorted = self.function_order();
        proof {
            if let Some(order) = sorted {
                if !(declared.status is Running) {
                    assert(functions_output(env, declared, nodes, order, 0) == declared);
                    functions_change_nothing_after_a_stop(
                        env,
                        declared,
                        nodes,
                        order,
                        0,
                        order.len(),
                    );
                }
                let o = functions_output(env, declared, nodes, order, order.len());
                if !(o.status is Running) {
                    function_changes_nothing_after_a_stop(
                        env,
                        o,
                        entry_point_type,
                        entry_point.function,
                        "main"@,
                    );
                }
            }
        }
        self.render(None, &parts)?;
        // Sort the graph topologically so that functions calls are valid
        let order = match graph_toposort(&self.call_graph) {
            Some(order) => order,
            None => {
                return Err(Stop::Invalid);
            },
        };
        // Write all regular functions that are in the call graph this is important
        // because other functions might require for example globals that weren't written
        self.write_nodes(&order)?;
        self.write_function(entry_point_type, &entry_point.function, "main")
    }

    /// Helper method used to produce the images mapping that's returned to the user
    ///
    /// It takes the functions of the call graph, then the entry point.
    pub fn collect_texture_mapping(&self) -> (result: Result<TextureMappings, Stop>)
        ensures
            match result {
                Ok(map) => map.wf() && self.module_textures() == Textures::Mapped(map@),
                Err(Stop::Error(e)) => e@ == ErrorView::ImageMultipleSamplers
                    && self.module_textures() is MultipleSamplers,
                Err(Stop::Invalid) => self.module_textures() is Invalid,
            },
    {
        let env = self.env;
        let ghost nodes = graph_nodes(self.call_graph);
        let weights = graph_raw_nodes(&self.call_graph);
        let mut mappings = TextureMappings::new();
        for i in 0..weights.len()
            invariant
                env == self.env,
                nodes == graph_nodes(self.call_graph),
                weights@ == nodes,
                mappings.wf(),
                node_textures(env, nodes, i as nat) == Textures::Mapped(mappings@),
        {
            let position: usize = weights[i];
            if position >= env.module.functions.len() {
                proof {
                    textures_stay_wanting(env, nodes, (i + 1) as nat, nodes.len());
                }
                return Err(Stop::Invalid);
            }
            match collect_function_textures(
                mappings,
                &env.analysis.names,
                &env.module.functions.data[position],
            ) {
                Ok(next) => {
                    mappings = next;
                },
                Err(stop) => {
                    proof {
                        textures_stay_wanting(env, nodes, (i + 1) as nat, nodes.len());
                    }
                    return Err(stop);
                },
            }
        }
        collect_function_textures(mappings, &env.analysis.names, &self.entry_point.function)
    }

    /// Writes the module as glsl to the output and collects its textures.
    fn write_and_collect(&mut self) -> (result: Result<TextureMappings, Stop>)
        ensures
            old(self).written(*final(self)),
            old(self).declared().status is Running ==> old(self).order_is_sound(),
            match result {
                Ok(map) => {
                    &&& old(self).status() is Running
                    &&& map.wf()
                    &&& old(self).module_textures() == Textures::Mapped(map@)
                },
                Err(Stop::Error(e)) => old(self).status() == Status::Failed(e@),
                Err(Stop::Invalid) => old(self).status() is Invalid,
            },
    {
        self.write_module()?;
        // Collect all of the texture mappings and return them to the user
        self.collect_texture_mapping()
    }

    /// Writes the module as glsl to the output
    ///
    /// # Notes
    /// If an error occurs while writing, the output might have been written partially
    pub fn write(&mut self) -> (result: Result<TextureMappings, Error>)
        requires
            !(old(self).status() is Invalid),
        ensures
            old(self).written(*final(self)),
            old(self).declared().status is Running ==> old(self).order_is_sound(),
            match result {
                Ok(map) => {
                    &&& old(self).status() is Running
                    &&& map.wf()
                    &&& old(self).module_textures() == Textures::Mapped(map@)
                },
                Err(e) => old(self).status() == Status::Failed(e@),
            },
    {
        match self.write_and_collect() {
            Ok(map) => Ok(map),
            Err(Stop::Error(e)) => Err(e),
            Err(Stop::Invalid) => {
                assert(false);
                Err(Error::EntryPointNotFound)
            },
        }
    }

    /// Writes the module as glsl to the output, if it is valid
    ///
    /// Nothing is written if the module is invalid.
    pub fn checked_write(&mut self) -> (result: Option<Result<TextureMappings, Error>>)
        ensures
            old(self).declared().status is Running ==> old(self).order_is_sound(),
            match result {
                Some(Ok(map)) => {
                    &&& old(self).written(*final(self))
                    &&& old(self).status() is Running
                    &&& map.wf()
                    &&& old(self).module_textures() == Textures::Mapped(map@)
                },
                Some(Err(e)) => {
                    &&& old(self).written(*final(self))
                    &&& old(self).status() == Status::Failed(e@)
                },
                None => {
                    &&& old(self).status() is Invalid
                    &&& final(self).state() == old(self).state()
                    &&& final(self).same_inputs(*old(self))
                },
            },
    {
        let out = self.out.clone();
        let block_id: u32 = self.block_id.0;
        let valid = match self.write_and_collect() {
            Err(Stop::Invalid) => false,
            _ => true,
        };
        self.out = out;
        self.block_id = IdGenerator(block_id);
        if valid {
            Some(self.write())
        } else {
            None
        }
    }
}

} // verus!
