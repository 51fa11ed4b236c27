//! Statistical hypothesis testing over exact decimal fixed-point numbers.
//!
//! Two classical tests are offered: a chi-squared goodness-of-fit test for
//! normality (with either fully given expected frequencies or expected
//! frequencies estimated from binned data by the method of moments), and an
//! F-test for equality of two population variances.  All sample arithmetic is
//! carried out exactly on scaled integers; only square roots, normal
//! cumulative distribution values and distribution quantiles come from an
//! outside numerics library, behind narrow trusted declarations.

pub mod fixed;
pub mod stats;
pub mod dist;
pub mod same_variance_hypothesis;
pub mod normal_distribution_hypothesis;
