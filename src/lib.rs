//! Reconstructs an entity-relationship model from a PostgreSQL catalog and
//! renders it as PlantUML or Mermaid diagram source.
use vstd::prelude::*;

pub mod catalog;
pub mod diagram;
pub mod error;
pub mod mermaid_generator;
pub mod model_builder;
pub mod plantuml_generator;
pub mod psql_erd_loader;
pub mod sql_entities;
pub mod text;

pub use error::SqlantError;

use mermaid_generator::{mermaid_document, MermaidGenerator};
use plantuml_generator::{puml_document, PlantUmlDefaultGenerator};
use sql_entities::SqlERData;
use text::str_eq;

verus! {

/// Layout direction of a Mermaid diagram: top to bottom, bottom to top, left
/// to right or right to left.
#[derive(Clone, Copy, Debug, PartialEq, Eq, Structural)]
pub enum Direction {
    TB,
    BT,
    LR,
    RL,
}

/// What a renderer is asked to draw.
#[derive(Clone, Debug)]
pub struct GeneratorConfigOptions {
    /// Mark NOT NULL columns (Mermaid; PlantUML always marks them).
    pub not_null: bool,
    /// Draw one block per enumerated type.
    pub draw_enums: bool,
    /// Add a legend (PlantUML only).
    pub draw_legend: bool,
    /// Embed the PlantUML helper functions instead of linking them.
    pub inline_puml_lib: bool,
    /// Conceptual diagram; reserved, no renderer reads it yet.
    pub conceptual_diagram: bool,
    /// Layout direction (Mermaid only).
    pub direction: Option<Direction>,
}

impl Direction {
    /// The direction named `name`: `TB`, `BT`, `LR` or `RL`.
    pub fn from_name(name: &str) -> (r: Option<Direction>)
        ensures
            name@ == "TB"@ <==> r == Some(Direction::TB),
            name@ == "BT"@ <==> r == Some(Direction::BT),
            name@ == "LR"@ <==> r == Some(Direction::LR),
            name@ == "RL"@ <==> r == Some(Direction::RL),
    {
        proof {
            reveal_strlit("TB");
            reveal_strlit("BT");
            reveal_strlit("LR");
            reveal_strlit("RL");
            assert("TB"@[0] == 'T' && "BT"@[0] == 'B' && "LR"@[0] == 'L' && "RL"@[0] == 'R');
        }
        if str_eq(name, "TB") {
            Some(Direction::TB)
        } else if str_eq(name, "BT") {
            Some(Direction::BT)
        } else if str_eq(name, "LR") {
            Some(Direction::LR)
        } else if str_eq(name, "RL") {
            Some(Direction::RL)
        } else {
            None
        }
    }
}

/// A renderer: turns a model and options into diagram text, with no other
/// effect and nothing kept between calls.
pub trait ViewGenerator {
    /// The text that `generate` produces.
    spec fn document(&self, erd: SqlERData, opts: GeneratorConfigOptions) -> Seq<char>;

    /// Renders a well-formed model, whose enumerated types are kept sorted by
    /// name: the text lists tables, foreign keys and enumerated types in the
    /// model's order.
    fn generate(&self, sql_erd: &SqlERData, opts: &GeneratorConfigOptions) -> (r: Result<
        String,
        SqlantError,
    >)
        requires
            sql_erd.wf(),
        ensures
            r matches Ok(s) && s@ == self.document(*sql_erd, *opts),
    ;
}

/// The notations a diagram can be written in.
#[derive(Clone, Copy, Debug, PartialEq, Eq, Structural, PartialOrd, Ord, Hash)]
pub enum GeneratorType {
    PlantUML,
    Mermaid,
}

impl GeneratorType {
    /// The notation named `name`: `plantuml` or `mermaid`.
    pub fn from_name(name: &str) -> (r: Option<GeneratorType>)
        ensures
            name@ == "plantuml"@ <==> r == Some(GeneratorType::PlantUML),
            name@ == "mermaid"@ <==> r == Some(GeneratorType::Mermaid),
    {
        proof {
            reveal_strlit("plantuml");
            reveal_strlit("mermaid");
            assert("plantuml"@[0] == 'p' && "mermaid"@[0] == 'm');
        }
        if str_eq(name, "plantuml") {
            Some(GeneratorType::PlantUML)
        } else if str_eq(name, "mermaid") {
            Some(GeneratorType::Mermaid)
        } else {
            None
        }
    }

    /// The name that `from_name` reads.
    pub fn name(&self) -> (r: &'static str)
        ensures
            *self == GeneratorType::PlantUML ==> r@ == "plantuml"@,
            *self == GeneratorType::Mermaid ==> r@ == "mermaid"@,
    {
        match self {
            GeneratorType::PlantUML => "plantuml",
            GeneratorType::Mermaid => "mermaid",
        }
    }
}

/// A renderer of either notation, chosen once by `get_generator`.
#[derive(Clone, Copy, Debug)]
pub enum Generator {
    PlantUml(PlantUmlDefaultGenerator),
    Mermaid(MermaidGenerator),
}

impl ViewGenerator for Generator {
    open spec fn document(&self, erd: SqlERData, opts: GeneratorConfigOptions) -> Seq<char> {
        match self {
            Generator::PlantUml(_) => puml_document(erd, opts),
            Generator::Mermaid(_) => mermaid_document(erd, opts),
        }
    }

    fn generate(&self, sql_erd: &SqlERData, opts: &GeneratorConfigOptions) -> (r: Result<
        String,
        SqlantError,
    >) {
        match self {
            Generator::PlantUml(g) => g.generate(sql_erd, opts),
            Generator::Mermaid(g) => g.generate(sql_erd, opts),
        }
    }
}

/// Rendering is a function of the model and the options alone: two
/// renderings of the same model with the same options give the same text.
pub proof fn lemma_rendering_is_deterministic(
    g: Generator,
    erd: SqlERData,
    opts: GeneratorConfigOptions,
    first: String,
    second: String,
)
    requires
        first@ == g.document(erd, opts),
        second@ == g.document(erd, opts),
    ensures
        first@ == second@,
{
}

/// The renderer of the notation `generator_type`.
pub fn get_generator(generator_type: GeneratorType) -> (r: Result<Generator, SqlantError>)
    ensures
        r matches Ok(g) && (generator_type == GeneratorType::PlantUML <==> g is PlantUml),
{
    match generator_type {
        GeneratorType::PlantUML => match PlantUmlDefaultGenerator::new() {
            Ok(g) => Ok(Generator::PlantUml(g)),
            Err(e) => Err(e),
        },
        GeneratorType::Mermaid => match MermaidGenerator::new() {
            Ok(g) => Ok(Generator::Mermaid(g)),
            Err(e) => Err(e),
        },
    }
}

} // verus!
