use vstd::prelude::*;

verus! {

/// The layers of the runtime extension chain, outermost first.
#[derive(Clone, Copy, Debug, PartialEq, Eq, Structural)]
pub enum LayerKind {
    /// Test-framework hints: environment variables, mock contracts.
    TestFramework,
    /// Contract-to-contract calls, sent to the chain-execution engine.
    CallDispatch,
    /// Input and output requested by the program.
    Io,
    /// Overrides of block and call facts.
    Cheat,
    /// Genuine syscalls, served against the state reader.
    BaseSyscall,
}

/// One layer: the hint selectors it serves.
pub struct ExtensionLayer {
    pub kind: LayerKind,
    pub selectors: Vec<String>,
}

/// What a layer does with a hint.
#[derive(Clone, Copy, Debug, PartialEq, Eq, Structural)]
pub enum Handling {
    Handled,
    Forward,
}

/// The chain of layers, outermost first.
pub struct ExtensionStack {
    pub layers: Vec<ExtensionLayer>,
}

/// No layer of the chain recognized the hint: a fatal VM error.
pub struct UnrecognizedHint {
    pub selector: String,
}

impl ExtensionLayer {
    pub open spec fn recognizes(&self, selector: Seq<char>) -> bool {
        exists|i: int| 0 <= i < self.selectors@.len() && self.selectors@[i]@ == selector
    }

    /// Serves the hint if this layer recognizes it, else forwards it unchanged.
    pub fn handle(&self, selector: &String) -> (r: Handling)
        ensures
            (r == Handling::Handled) == self.recognizes(selector@),
    {
        let mut i: usize = 0;
        while i < self.selectors.len()
            invariant
                i <= self.selectors@.len(),
                forall|j: int| 0 <= j < i ==> self.selectors@[j]@ != selector@,
            decreases self.selectors@.len() - i,
        {
            if self.selectors[i] == *selector {
                return Handling::Handled;
            }
            i = i + 1;
        }
        Handling::Forward
    }
}

/// The layer that serves a hint: the outermost one that recognizes it.
pub open spec fn serving_layer(layers: Seq<ExtensionLayer>, selector: Seq<char>, i: int) -> bool {
    &&& 0 <= i < layers.len()
    &&& layers[i].recognizes(selector)
    &&& forall|j: int| 0 <= j < i ==> !(#[trigger] layers[j].recognizes(selector))
}

impl ExtensionStack {
    /// The chain in its fixed shape: test framework, call dispatch, I/O,
    /// cheats, base syscalls, each with the selectors it serves.
    pub fn standard(
        framework: Vec<String>,
        calls: Vec<String>,
        io: Vec<String>,
        cheats: Vec<String>,
        syscalls: Vec<String>,
    ) -> (r: ExtensionStack)
        ensures
            r.layers@.len() == 5,
            r.layers@[0].kind == LayerKind::TestFramework && r.layers@[0].selectors == framework,
            r.layers@[1].kind == LayerKind::CallDispatch && r.layers@[1].selectors == calls,
            r.layers@[2].kind == LayerKind::Io && r.layers@[2].selectors == io,
            r.layers@[3].kind == LayerKind::Cheat && r.layers@[3].selectors == cheats,
            r.layers@[4].kind == LayerKind::BaseSyscall && r.layers@[4].selectors == syscalls,
    {
        let mut layers: Vec<ExtensionLayer> = Vec::new();
        layers.push(ExtensionLayer { kind: LayerKind::TestFramework, selectors: framework });
        layers.push(ExtensionLayer { kind: LayerKind::CallDispatch, selectors: calls });
        layers.push(ExtensionLayer { kind: LayerKind::Io, selectors: io });
        layers.push(ExtensionLayer { kind: LayerKind::Cheat, selectors: cheats });
        layers.push(ExtensionLayer { kind: LayerKind::BaseSyscall, selectors: syscalls });
        ExtensionStack { layers }
    }

    /// Passes a hint from the outermost layer inwards until one serves it;
    /// gives the position of that layer, or an error when none does.
    pub fn dispatch(&self, selector: &String) -> (r: Result<usize, UnrecognizedHint>)
        ensures
            r.is_ok() ==> serving_layer(self.layers@, selector@, r->Ok_0 as int),
            r.is_err() ==> r->Err_0.selector@ == selector@ && forall|j: int|
                0 <= j < self.layers@.len() ==> !(#[trigger] self.layers@[j].recognizes(selector@)),
    {
        let mut i: usize = 0;
        while i < self.layers.len()
            invariant
                i <= self.layers@.len(),
                forall|j: int| 0 <= j < i ==> !(#[trigger] self.layers@[j].recognizes(selector@)),
            decreases self.layers@.len() - i,
        {
            match self.layers[i].handle(selector) {
                Handling::Handled => return Ok(i),
                Handling::Forward => {},
            }
            i = i + 1;
        }
        Err(UnrecognizedHint { selector: selector.clone() })
    }
}

/// A hint that only the innermost layer recognizes passes unchanged through
/// every outer layer and is served by the innermost one.
pub proof fn lemma_forwarded_to_innermost(layers: Seq<ExtensionLayer>, selector: Seq<char>)
    requires
        layers.len() > 0,
        layers.last().recognizes(selector),
        forall|j: int| 0 <= j < layers.len() - 1 ==> !(#[trigger] layers[j].recognizes(selector)),
    ensures
        serving_layer(layers, selector, layers.len() - 1),
        forall|i: int| serving_layer(layers, selector, i) ==> i == layers.len() - 1,
{
}

} // verus!
