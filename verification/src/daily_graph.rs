//! The daily-graph request: its shape, its validation, and the chart
//! configuration derived from it. A request names up to a fixed number of
//! repositories and the metrics to chart for them.

use vstd::prelude::*;
use vstd::string::StringExecFns;
use crate::chart::ChartConfig;
use crate::series::{
    all_metrics_valid,
    dedup_metrics,
    invalid_metric_message,
    metric_of,
    parse_metric_types,
    MetricType,
};

verus! {

/// The most repositories one request may compare.
pub const MAX_REPOSITORIES_PER_REQUEST: usize = 10;

/// One repository named in the request.
#[derive(Debug, Clone)]
pub struct RepositorySpec {
    pub owner: String,
    pub name: String,
}

/// Chart configuration overrides from the request.
#[derive(Debug, Clone)]
pub struct ChartConfigRequest {
    pub width: Option<u32>,
    pub height: Option<u32>,
    pub title: Option<String>,
    pub show_legend: Option<bool>,
}

/// The request body: the repositories to chart, the metric names, whether
/// to use a relative time axis, and optional chart overrides.
#[derive(Debug, Clone)]
pub struct RepoStarsReadDailyGraphRequestBody {
    pub repositories: Vec<RepositorySpec>,
    pub metric_types: Vec<String>,
    pub relative_x_axis: bool,
    pub chart_config: Option<ChartConfigRequest>,
}

/// One rendered chart of the response.
#[derive(Debug, Clone)]
pub struct ChartResponse {
    pub metric_type: String,
    pub svg_content: String,
}

/// The response when several charts are rendered.
#[derive(Debug, Clone)]
pub struct MultiChartResponse {
    pub charts: Vec<ChartResponse>,
}

/// Why a daily-graph request is answered with an error.
#[derive(Debug, Clone, PartialEq)]
pub enum HandlerError {
    /// The named repository has no stored record.
    RepositoryNotFound { owner: String, name: String },
    /// Deriving the series failed.
    DataProcessing { message: String },
    /// Rendering a chart failed.
    ChartGeneration { message: String },
    /// The request was rejected before any work started.
    InvalidRequest { message: String },
}

/// The human-readable description of a request failure.
pub open spec fn spec_handler_error_message(e: HandlerError) -> Seq<char> {
    match e {
        HandlerError::RepositoryNotFound { owner, name } => "Repository "@ + owner@ + "/"@ + name@
            + " not found in database"@,
        HandlerError::DataProcessing { message } => "Data processing failed: "@ + message@,
        HandlerError::ChartGeneration { message } => "Chart generation failed: "@ + message@,
        HandlerError::InvalidRequest { message } => "Invalid request: "@ + message@,
    }
}

impl HandlerError {
    /// Renders the failure for the response body.
    pub fn message(&self) -> (r: String)
        ensures
            r@ == spec_handler_error_message(*self),
    {
        match self {
            HandlerError::RepositoryNotFound { owner, name } => {
                let mut s = String::from_str("Repository ");
                s.append(owner.as_str());
                s.append("/");
                s.append(name.as_str());
                s.append(" not found in database");
                proof {
                    assert(s@ =~= spec_handler_error_message(*self));
                }
                s
            },
            HandlerError::DataProcessing { message } => {
                let mut s = String::from_str("Data processing failed: ");
                s.append(message.as_str());
                s
            },
            HandlerError::ChartGeneration { message } => {
                let mut s = String::from_str("Chart generation failed: ");
                s.append(message.as_str());
                s
            },
            HandlerError::InvalidRequest { message } => {
                let mut s = String::from_str("Invalid request: ");
                s.append(message.as_str());
                s
            },
        }
    }
}

/// Validates a daily-graph request before any work starts: at least one
/// and at most the maximum number of repositories, and recognizable
/// metric names; returns the parsed metrics.
pub fn validate_read_daily_graph_request(input: &RepoStarsReadDailyGraphRequestBody) -> (r: Result<
    Vec<MetricType>,
    HandlerError,
>)
    ensures
        input.repositories@.len() == 0 ==> (r matches Err(HandlerError::InvalidRequest { message })
            && message@ == "At least one repository must be specified"@),
        input.repositories@.len() > MAX_REPOSITORIES_PER_REQUEST ==> (r matches Err(
            HandlerError::InvalidRequest { message },
        ) && message@ == "Maximum 10 repositories allowed per request"@),
        1 <= input.repositories@.len() <= MAX_REPOSITORIES_PER_REQUEST ==> {
            &&& (input.metric_types@.len() == 0 ==> (r matches Ok(v) && v@ == seq![
                MetricType::Position,
            ]))
            &&& (input.metric_types@.len() > 0 ==> {
                &&& (r is Ok <==> all_metrics_valid(input.metric_types.deep_view()))
                &&& (r matches Ok(v) ==> v@ == dedup_metrics(input.metric_types.deep_view()))
                &&& (r matches Err(e) ==> (e matches HandlerError::InvalidRequest { message }
                    && exists|i: int|
                    {
                        &&& 0 <= i < input.metric_types@.len()
                        &&& (#[trigger] metric_of(input.metric_types@[i]@)) is None
                        &&& forall|j: int|
                            0 <= j < i ==> metric_of(input.metric_types@[j]@) is Some
                        &&& message@ == invalid_metric_message(input.metric_types@[i]@)
                    }))
            })
        },
{
    if input.repositories.len() == 0 {
        return Err(
            HandlerError::InvalidRequest {
                message: String::from_str("At least one repository must be specified"),
            },
        );
    }
    if input.repositories.len() > MAX_REPOSITORIES_PER_REQUEST {
        return Err(
            HandlerError::InvalidRequest {
                message: String::from_str("Maximum 10 repositories allowed per request"),
            },
        );
    }
    match parse_metric_types(&input.metric_types) {
        Ok(metric_types) => Ok(metric_types),
        Err(message) => Err(HandlerError::InvalidRequest { message }),
    }
}

/// The canonical name of a metric, as responses report it.
pub fn metric_type_name(metric_type: &MetricType) -> (r: &'static str)
    ensures
        match *metric_type {
            MetricType::Position => r@ == "position"@,
            MetricType::Speed => r@ == "speed"@,
            MetricType::Acceleration => r@ == "acceleration"@,
        },
{
    match metric_type {
        MetricType::Position => "position",
        MetricType::Speed => "speed",
        MetricType::Acceleration => "acceleration",
    }
}

/// The title the chart for one metric carries: a title set in the request
/// wins; otherwise it names the repository and the metric, or announces a
/// multi-repository comparison.
pub open spec fn chart_title(
    input: RepoStarsReadDailyGraphRequestBody,
    metric_type: MetricType,
) -> Seq<char> {
    let custom = match input.chart_config {
        Some(cc) => match cc.title {
            Some(t) => t@,
            None => "Repository Star Metrics"@,
        },
        None => "Repository Star Metrics"@,
    };
    if custom != "Repository Star Metrics"@ {
        custom
    } else {
        let metric_name = match metric_type {
            MetricType::Position => "Cumulative Stars"@,
            MetricType::Speed => "Daily Star Count"@,
            MetricType::Acceleration => "Star Acceleration"@,
        };
        if input.repositories@.len() == 1 {
            input.repositories@[0].owner@ + "/"@ + input.repositories@[0].name@ + " - "@
                + metric_name
        } else {
            "Multi-Repository "@ + metric_name + " Comparison"@
        }
    }
}

/// Builds the chart configuration for one metric of the request: the
/// request's overrides on top of the defaults, with the derived title
/// where none was set.
pub fn build_chart_config(
    input: &RepoStarsReadDailyGraphRequestBody,
    metric_type: &MetricType,
) -> (c: ChartConfig)
    ensures
        c.width == (match input.chart_config {
            Some(cc) => match cc.width {
                Some(w) => w,
                None => 800u32,
            },
            None => 800u32,
        }),
        c.height == (match input.chart_config {
            Some(cc) => match cc.height {
                Some(h) => h,
                None => 400u32,
            },
            None => 400u32,
        }),
        c.show_legend == (match input.chart_config {
            Some(cc) => match cc.show_legend {
                Some(s) => s,
                None => true,
            },
            None => true,
        }),
        c.title@ == chart_title(*input, *metric_type),
        c.colors@ == crate::chart::default_palette(),
{
    let mut config = ChartConfig::default();
    match &input.chart_config {
        Some(chart_config) => {
            match chart_config.width {
                Some(width) => {
                    config.width = width;
                },
                None => {},
            }
            match chart_config.height {
                Some(height) => {
                    config.height = height;
                },
                None => {},
            }
            match chart_config.show_legend {
                Some(show_legend) => {
                    config.show_legend = show_legend;
                },
                None => {},
            }
            match &chart_config.title {
                Some(title) => {
                    config.title = title.clone();
                },
                None => {},
            }
        },
        None => {},
    }
    let generic = String::from_str("Repository Star Metrics");
    if config.title == generic {
        let metric_name: &str = match metric_type {
            MetricType::Position => "Cumulative Stars",
            MetricType::Speed => "Daily Star Count",
            MetricType::Acceleration => "Star Acceleration",
        };
        if input.repositories.len() == 1 {
            let mut title = String::new();
            title.append(input.repositories[0].owner.as_str());
            title.append("/");
            title.append(input.repositories[0].name.as_str());
            title.append(" - ");
            title.append(metric_name);
            config.title = title;
        } else {
            let mut title = String::from_str("Multi-Repository ");
            title.append(metric_name);
            title.append(" Comparison");
            config.title = title;
        }
        proof {
            assert(config.title@ =~= chart_title(*input, *metric_type));
        }
    }
    config
}

} // verus!
