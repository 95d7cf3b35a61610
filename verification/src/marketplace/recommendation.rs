//! The ready-made workflow suggested for what a project needs.

use vstd::prelude::*;
use crate::marketplace::types::{PerformanceRequirements, ProjectType};
use crate::text::string_views;
use crate::wasm_error::WasmResult;

verus! {

/// What a workflow is wanted for: the kind of project, its data sources,
/// the formats it writes and the performance it needs.
#[derive(Debug, Clone)]
pub struct WorkflowRequirements {
    pub project_type: Option<ProjectType>,
    pub data_sources: Vec<String>,
    pub target_formats: Vec<String>,
    pub performance_requirements: PerformanceRequirements,
}

/// A ready-made workflow: the components it wires together and the minutes
/// it takes to set up.
#[derive(Debug, Clone)]
pub struct WorkflowTemplate {
    pub id: String,
    pub name: String,
    pub description: String,
    pub components: Vec<String>,
    pub estimated_setup_time: u32,
}

/// The identifier, components and setup minutes of the template suggested
/// for a project of kind `t`: an ETL pipeline for a data pipeline, a
/// real-time analytics flow for real-time analytics, a basic file flow
/// otherwise.
pub open spec fn template_for(t: Option<ProjectType>) -> (Seq<char>, Seq<Seq<char>>, u32) {
    match t {
        Some(ProjectType::DataPipeline) => (
            "etl-pipeline"@,
            seq!["csv-source"@, "transform-processor"@, "db-destination"@],
            30,
        ),
        Some(ProjectType::RealTimeAnalytics) => (
            "realtime-analytics"@,
            seq!["stream-source"@, "analytics-processor"@, "dashboard-destination"@],
            45,
        ),
        _ => ("basic-workflow"@, seq!["file-source"@, "basic-processor"@, "file-destination"@], 15),
    }
}

/// A template with the given texts.
fn template(id: &str, name: &str, description: &str, components: [&str; 3], minutes: u32) -> (t: WorkflowTemplate)
    ensures
        t.id@ == id@,
        t.name@ == name@,
        t.description@ == description@,
        string_views(t.components@) == seq![components[0]@, components[1]@, components[2]@],
        t.estimated_setup_time == minutes,
{
    let parts = vec![
        String::from_str(components[0]),
        String::from_str(components[1]),
        String::from_str(components[2]),
    ];
    assert(string_views(parts@) =~= seq![components[0]@, components[1]@, components[2]@]);
    WorkflowTemplate {
        id: String::from_str(id),
        name: String::from_str(name),
        description: String::from_str(description),
        components: parts,
        estimated_setup_time: minutes,
    }
}

/// The workflow templates suggested for `requirements`: the one template
/// for its kind of project.
pub fn recommend_workflow_templates(requirements: &WorkflowRequirements) -> (r: WasmResult<Vec<WorkflowTemplate>>)
    ensures
        r matches Ok(v) && v@.len() == 1 && v@[0].id@ == template_for(requirements.project_type).0 && string_views(
            v@[0].components@,
        ) == template_for(requirements.project_type).1 && v@[0].estimated_setup_time == template_for(
            requirements.project_type,
        ).2,
{
    let t = match requirements.project_type {
        Some(ProjectType::DataPipeline) => template(
            "etl-pipeline",
            "ETL数据管道",
            "标准的ETL数据处理管道",
            ["csv-source", "transform-processor", "db-destination"],
            30,
        ),
        Some(ProjectType::RealTimeAnalytics) => template(
            "realtime-analytics",
            "实时分析",
            "实时数据分析工作流",
            ["stream-source", "analytics-processor", "dashboard-destination"],
            45,
        ),
        _ => template(
            "basic-workflow",
            "基础工作流",
            "通用的数据处理工作流",
            ["file-source", "basic-processor", "file-destination"],
            15,
        ),
    };
    Ok(vec![t])
}

} // verus!
