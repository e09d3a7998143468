//! From source text to the data stack that a program leaves.
use crate::built_in::{Arity, BuiltIns, Outcome};
use crate::invoke::{
    interpret, run, run_result_view, starting_state, Halt, RuntimeError, RuntimeFailure, StateModel,
};
use crate::parse::{parse_str, parsed, ParseError};
use crate::render::{render, render_template, RenderError, RenderFailure, Rendered};
use crate::scope::Scope;
use crate::text::grapheme_clusters;
use crate::types::{
    data_views, literal, literals, program_views, template_views, ProgramModel, ProgramValue,
    Template, TemplateDataModel, TemplateModel, TemplateValue, TemplateValueModel,
};
use vstd::prelude::*;

verus! {

/// Why a text did not run to its end.
#[derive(Debug, PartialEq)]
pub enum SidError {
    /// The text could not be parsed.
    Parse(ParseError),
    /// The program as a whole could not be rendered: it refers to a stack or
    /// to labels that it does not have.
    Render(RenderError),
    /// A step of the machine failed.
    Runtime(RuntimeError),
    /// The allowed number of steps was used up.
    OutOfSteps,
}

/// The model of a [`SidError`].
pub enum SidFailure {
    Parse(ParseError),
    Render(RenderFailure),
    Runtime(RuntimeFailure),
    OutOfSteps,
}

impl View for SidError {
    type V = SidFailure;

    open spec fn view(&self) -> SidFailure {
        match self {
            SidError::Parse(error) => SidFailure::Parse(*error),
            SidError::Render(error) => SidFailure::Render(error@),
            SidError::Runtime(error) => SidFailure::Runtime(error@),
            SidError::OutOfSteps => SidFailure::OutOfSteps,
        }
    }
}

/// The view of what running a text gives.
pub open spec fn outcome_of(result: Result<Vec<TemplateValue>, SidError>) -> Result<
    Seq<TemplateValueModel>,
    SidFailure,
> {
    match result {
        Ok(stack) => Ok(template_views(stack@)),
        Err(error) => Err(error@),
    }
}

/// The state in which a program starts: the program as one substack on the
/// data stack, and an invoke of it as the only instruction.
pub open spec fn initial_state(rendered: Rendered) -> StateModel {
    StateModel {
        program_stack: seq![ProgramModel::Invoke],
        data_stack: rendered.stack + literals(rendered.output),
        local_scope: Map::empty(),
        global_scope: Map::empty(),
    }
}

/// The data stack that the text of the given clusters leaves when it runs
/// for at most `max_steps` steps, where the builtins give what `outcomes`
/// holds, step by step. The whole text is rendered as a substack against an
/// empty stack and empty scopes, and the substack is invoked.
pub open spec fn program_outcome(
    clusters: Seq<Seq<char>>,
    registry: Map<Seq<char>, Arity>,
    outcomes: Seq<Outcome>,
    max_steps: nat,
) -> Result<Seq<TemplateValueModel>, SidFailure> {
    match parsed(clusters) {
        Err(error) => Err(SidFailure::Parse(error)),
        Ok(sequence) => match render(
            TemplateModel {
                data: TemplateDataModel::Substack(sequence.values),
                consumes_stack_entries: sequence.consumes,
                comptime: false,
            },
            Seq::empty(),
            Map::empty(),
            Map::empty(),
        ) {
            Err(failure) => Err(SidFailure::Render(failure)),
            Ok(rendered) => match run(initial_state(rendered), registry, outcomes, max_steps) {
                (state, Ok(Halt::Finished)) => Ok(state.data_stack),
                (state, Ok(Halt::OutOfSteps)) => Err(SidFailure::OutOfSteps),
                (state, Err(failure)) => Err(SidFailure::Runtime(failure)),
            },
        },
    }
}

/// Parses `script` and runs it for at most `max_steps` steps, with empty
/// scopes. Gives the data stack that the program leaves.
pub fn interpret_str(script: &str, builtins: &BuiltIns, max_steps: usize) -> (result: Result<
    Vec<TemplateValue>,
    SidError,
>)
    ensures
        exists|outcomes: Seq<Outcome>|
            #[trigger] program_outcome(
                grapheme_clusters(script@),
                builtins@,
                outcomes,
                max_steps as nat,
            ) == outcome_of(result),
{
    let ghost clusters = grapheme_clusters(script@);
    let (values, consumes) = match parse_str(script) {
        Err(error) => {
            proof {
                assert(program_outcome(clusters, builtins@, Seq::empty(), max_steps as nat)
                    == outcome_of(Err(SidError::Parse(error))));
            }
            return Err(SidError::Parse(error));
        },
        Ok(parsed) => parsed,
    };
    let scope = Scope::new();
    let mut stack: Vec<TemplateValue> = Vec::new();
    proof {
        assert(template_views(stack@) =~= Seq::<TemplateValueModel>::empty());
    }
    let output = match render_template(
        Template::substack((values, consumes)),
        &mut stack,
        &scope,
        &scope,
    ) {
        Err(error) => {
            proof {
                assert(program_outcome(clusters, builtins@, Seq::empty(), max_steps as nat)
                    == outcome_of(Err(SidError::Render(error))));
            }
            return Err(SidError::Render(error));
        },
        Ok(output) => output,
    };
    let ghost kept = template_views(stack@);
    let mut data_stack = stack;
    let mut i: usize = 0;
    proof {
        assert(kept + literals(data_views(output@)).take(0) =~= kept);
    }
    while i < output.len()
        invariant
            i <= output@.len(),
            template_views(data_stack@) == kept + literals(data_views(output@)).take(i as int),
        decreases output.len() - i,
    {
        let value = output[i].clone();
        proof {
            let pushed = TemplateValue::Literal(ProgramValue::Data(value));
            assert(template_views(data_stack@.push(pushed)) =~= template_views(data_stack@).push(
                literal(output@[i as int]@),
            ));
            assert(kept + literals(data_views(output@)).take(i + 1) =~= (kept + literals(
                data_views(output@),
            ).take(i as int)).push(literal(output@[i as int]@)));
        }
        data_stack.push(TemplateValue::Literal(ProgramValue::Data(value)));
        i += 1;
    }
    proof {
        assert(literals(data_views(output@)).take(output@.len() as int) =~= literals(
            data_views(output@),
        ));
    }
    let mut program: Vec<ProgramValue> = Vec::new();
    program.push(ProgramValue::Invoke);
    proof {
        assert(program_views(program@) =~= seq![ProgramModel::Invoke]);
    }
    let ghost start = starting_state(
        program_views(program@),
        template_views(data_stack@),
        scope@,
    );
    let (state, halted) = interpret(program, data_stack, scope, builtins, max_steps);
    let ghost ended = state@;
    let result = match halted {
        Ok(Halt::Finished) => Ok(state.data_stack),
        Ok(Halt::OutOfSteps) => Err(SidError::OutOfSteps),
        Err(error) => Err(SidError::Runtime(error)),
    };
    proof {
        let outcomes = choose|outcomes: Seq<Outcome>|
            #[trigger] run(start, builtins@, outcomes, max_steps as nat) == (
                ended,
                run_result_view(halted),
            );
        assert(program_outcome(clusters, builtins@, outcomes, max_steps as nat) == outcome_of(
            result,
        ));
    }
    result
}

} // verus!
