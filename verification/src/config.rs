//! The configuration of one transfer run.

use crate::filter::allow_set;
use vstd::prelude::*;

verus! {

/// What a `Config` stands for.
pub struct ConfigView {
    /// Path of the directory that is read.
    pub source: Seq<char>,
    /// Path of the directory that is written into.
    pub destination: Seq<char>,
    /// The extension allow-set.
    pub extensions: Set<Seq<char>>,
    /// Whether subdirectories are descended into.
    pub recursive: bool,
}

/// Source, destination, extension allow-set and recursion flag of a run.
/// Nothing about the paths is checked when a `Config` is made.
#[derive(Clone, Debug)]
pub struct Config {
    src: String,
    dst: String,
    ext: Vec<String>,
    rec: bool,
}

impl View for Config {
    type V = ConfigView;

    closed spec fn view(&self) -> ConfigView {
        ConfigView {
            source: self.src@,
            destination: self.dst@,
            extensions: allow_set(self.ext@),
            recursive: self.rec,
        }
    }
}

impl Config {
    /// Makes a configuration. The tokens of `ext` form the allow-set: their
    /// order and repetitions do not matter, and an empty list admits no file.
    pub fn new(src: String, dst: String, ext: Vec<String>, rec: bool) -> (config: Config)
        ensures
            config@ == (ConfigView {
                source: src@,
                destination: dst@,
                extensions: allow_set(ext@),
                recursive: rec,
            }),
    {
        Config { src, dst, ext, rec }
    }

    /// Path of the source directory.
    pub fn source(&self) -> (path: &String)
        ensures
            path@ == self@.source,
    {
        &self.src
    }

    /// Path of the destination directory.
    pub fn destination(&self) -> (path: &String)
        ensures
            path@ == self@.destination,
    {
        &self.dst
    }

    /// The extension tokens that the allow-set was made from.
    pub fn extensions(&self) -> (tokens: &Vec<String>)
        ensures
            allow_set(tokens@) == self@.extensions,
    {
        &self.ext
    }

    /// Whether subdirectories are descended into.
    pub fn recursive(&self) -> (flag: bool)
        ensures
            flag == self@.recursive,
    {
        self.rec
    }
}

} // verus!
