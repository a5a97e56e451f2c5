//! The catalog of diagram templates.

use vstd::prelude::*;

verus! {

/// A named snippet of diagram source to start from.
#[derive(Debug, PartialEq, Eq)]
pub struct Template {
    pub id: String,
    pub name: String,
    pub description: String,
    pub content: String,
    pub category: String,
}

/// A template as texts.
pub struct Sample {
    pub id: Seq<char>,
    pub name: Seq<char>,
    pub description: Seq<char>,
    pub content: Seq<char>,
    pub category: Seq<char>,
}

impl View for Template {
    type V = Sample;

    open spec fn view(&self) -> Sample {
        Sample {
            id: self.id@,
            name: self.name@,
            description: self.description@,
            content: self.content@,
            category: self.category@,
        }
    }
}

/// The identifier of the flowchart template.
pub const FLOWCHART_ID: &'static str = "flowchart-basic";

/// The name of the flowchart template.
pub const FLOWCHART_NAME: &'static str = "Basic Flowchart";

/// The description of the flowchart template.
pub const FLOWCHART_DESCRIPTION: &'static str = "A simple flowchart template";

/// The category of the flowchart template.
pub const FLOWCHART_CATEGORY: &'static str = "Flowchart";

/// The source text of the flowchart template.
pub const FLOWCHART_CONTENT: &'static str = "flowchart TD\n    A[Start] --> B{Decision?}\n    B -->|Yes| C[Process 1]\n    B -->|No| D[Process 2]\n    C --> E[End]\n    D --> E";

/// The identifier of the sequence diagram template.
pub const SEQUENCE_ID: &'static str = "sequence-basic";

/// The name of the sequence diagram template.
pub const SEQUENCE_NAME: &'static str = "Basic Sequence Diagram";

/// The description of the sequence diagram template.
pub const SEQUENCE_DESCRIPTION: &'static str = "A simple sequence diagram template";

/// The category of the sequence diagram template.
pub const SEQUENCE_CATEGORY: &'static str = "Sequence";

/// The source text of the sequence diagram template.
pub const SEQUENCE_CONTENT: &'static str = "sequenceDiagram\n    participant A as Alice\n    participant B as Bob\n    A->>B: Hello Bob, how are you?\n    B-->>A: Great!";

/// The identifier of the class diagram template.
pub const CLASS_ID: &'static str = "class-basic";

/// The name of the class diagram template.
pub const CLASS_NAME: &'static str = "Basic Class Diagram";

/// The description of the class diagram template.
pub const CLASS_DESCRIPTION: &'static str = "A simple class diagram template";

/// The category of the class diagram template.
pub const CLASS_CATEGORY: &'static str = "Class";

/// The source text of the class diagram template.
pub const CLASS_CONTENT: &'static str = "classDiagram\n    class Animal {\n        +String name\n        +int age\n        +makeSound()\n    }\n    class Dog {\n        +String breed\n        +bark()\n    }\n    Animal <|-- Dog";

/// The identifier of the state diagram template.
pub const STATE_ID: &'static str = "state-basic";

/// The name of the state diagram template.
pub const STATE_NAME: &'static str = "Basic State Diagram";

/// The description of the state diagram template.
pub const STATE_DESCRIPTION: &'static str = "A simple state diagram template";

/// The category of the state diagram template.
pub const STATE_CATEGORY: &'static str = "State";

/// The source text of the state diagram template.
pub const STATE_CONTENT: &'static str = "stateDiagram-v2\n    [*] --> Still\n    Still --> [*]\n    Still --> Moving\n    Moving --> Still\n    Moving --> Crash\n    Crash --> [*]";

/// The identifier of the Gantt chart template.
pub const GANTT_ID: &'static str = "gantt-basic";

/// The name of the Gantt chart template.
pub const GANTT_NAME: &'static str = "Basic Gantt Chart";

/// The description of the Gantt chart template.
pub const GANTT_DESCRIPTION: &'static str = "A simple gantt chart template";

/// The category of the Gantt chart template.
pub const GANTT_CATEGORY: &'static str = "Gantt";

/// The source text of the Gantt chart template.
pub const GANTT_CONTENT: &'static str = "gantt\n    title A Gantt Diagram\n    dateFormat  YYYY-MM-DD\n    section Section\n    A task           :a1, 2014-01-01, 30d\n    Another task     :after a1  , 20d\n    section Another\n    Task in sec      :2014-01-12  , 12d\n    another task      : 24d";

/// The identifier of the pie chart template.
pub const PIE_ID: &'static str = "pie-basic";

/// The name of the pie chart template.
pub const PIE_NAME: &'static str = "Basic Pie Chart";

/// The description of the pie chart template.
pub const PIE_DESCRIPTION: &'static str = "A simple pie chart template";

/// The category of the pie chart template.
pub const PIE_CATEGORY: &'static str = "Pie";

/// The source text of the pie chart template.
pub const PIE_CONTENT: &'static str = "pie title Sample Pie Chart\n    \"Dogs\" : 386\n    \"Cats\" : 85\n    \"Birds\" : 15";

/// What each template of a list is as texts.
pub open spec fn samples_of(list: Seq<Template>) -> Seq<Sample> {
    list.map_values(|t: Template| t@)
}

/// The sample made of the five texts.
pub open spec fn sample(
    id: Seq<char>,
    name: Seq<char>,
    description: Seq<char>,
    category: Seq<char>,
    content: Seq<char>,
) -> Sample {
    Sample { id, name, description, content, category }
}

/// The catalog: one basic template for each of six kinds of diagram.
pub open spec fn catalog() -> Seq<Sample> {
    seq![
        sample(FLOWCHART_ID@, FLOWCHART_NAME@, FLOWCHART_DESCRIPTION@, FLOWCHART_CATEGORY@, FLOWCHART_CONTENT@),
        sample(SEQUENCE_ID@, SEQUENCE_NAME@, SEQUENCE_DESCRIPTION@, SEQUENCE_CATEGORY@, SEQUENCE_CONTENT@),
        sample(CLASS_ID@, CLASS_NAME@, CLASS_DESCRIPTION@, CLASS_CATEGORY@, CLASS_CONTENT@),
        sample(STATE_ID@, STATE_NAME@, STATE_DESCRIPTION@, STATE_CATEGORY@, STATE_CONTENT@),
        sample(GANTT_ID@, GANTT_NAME@, GANTT_DESCRIPTION@, GANTT_CATEGORY@, GANTT_CONTENT@),
        sample(PIE_ID@, PIE_NAME@, PIE_DESCRIPTION@, PIE_CATEGORY@, PIE_CONTENT@),
    ]
}

/// The template made of the five texts.
pub fn template(id: &str, name: &str, description: &str, category: &str, content: &str) -> (r:
    Template)
    ensures
        r@ == sample(id@, name@, description@, category@, content@),
{
    Template {
        id: id.to_string(),
        name: name.to_string(),
        description: description.to_string(),
        content: content.to_string(),
        category: category.to_string(),
    }
}

/// The templates of the catalog, in its order.
pub fn catalog_templates() -> (r: Vec<Template>)
    ensures
        samples_of(r@) == catalog(),
{
    let mut r: Vec<Template> = Vec::new();
    r.push(template(FLOWCHART_ID, FLOWCHART_NAME, FLOWCHART_DESCRIPTION, FLOWCHART_CATEGORY, FLOWCHART_CONTENT));
    r.push(template(SEQUENCE_ID, SEQUENCE_NAME, SEQUENCE_DESCRIPTION, SEQUENCE_CATEGORY, SEQUENCE_CONTENT));
    r.push(template(CLASS_ID, CLASS_NAME, CLASS_DESCRIPTION, CLASS_CATEGORY, CLASS_CONTENT));
    r.push(template(STATE_ID, STATE_NAME, STATE_DESCRIPTION, STATE_CATEGORY, STATE_CONTENT));
    r.push(template(GANTT_ID, GANTT_NAME, GANTT_DESCRIPTION, GANTT_CATEGORY, GANTT_CONTENT));
    r.push(template(PIE_ID, PIE_NAME, PIE_DESCRIPTION, PIE_CATEGORY, PIE_CONTENT));
    assert(samples_of(r@) =~= catalog());
    r
}

} // verus!
